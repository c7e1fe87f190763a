use vstd::prelude::*;
use vstd::string::StringExecFns;

verus! {

/// The texts of `strings`, in order.
pub open spec fn texts(strings: Seq<String>) -> Seq<Seq<char>> {
    strings.map_values(|s: String| s@)
}

/// A label followed by a colon, a space and a value, as error texts read.
pub open spec fn labelled_text(label: Seq<char>, value: Seq<char>) -> Seq<char> {
    label + ": "@ + value
}

/// Builds `label: value`.
pub fn labelled(label: &str, value: &str) -> (text: String)
    ensures
        text@ == labelled_text(label@, value@),
{
    let mut text = String::from_str(label);
    text.append(": ");
    text.append(value);
    text
}

/// `middle` between `before` and `after`.
pub open spec fn framed_text(before: Seq<char>, middle: Seq<char>, after: Seq<char>) -> Seq<char> {
    before + middle + after
}

/// Builds `middle` between `before` and `after`.
pub fn framed(before: &str, middle: &str, after: &str) -> (text: String)
    ensures
        text@ == framed_text(before@, middle@, after@),
{
    let mut text = String::from_str(before);
    text.append(middle);
    text.append(after);
    text
}

/// How an error prints: the name of its type, its kind and its description.
pub open spec fn error_display(error_type: Seq<char>, kind_name: Seq<char>, description: Seq<char>) -> Seq<char> {
    error_type + "(kind="@ + kind_name + ", source="@ + description + ")"@
}

/// Builds the text that an error of type `error_type` and kind `kind_name`
/// described by `description` prints.
pub fn display_error(error_type: &str, kind_name: &str, description: &str) -> (text: String)
    ensures
        text@ == error_display(error_type@, kind_name@, description@),
{
    let mut text = String::from_str(error_type);
    text.append("(kind=");
    text.append(kind_name);
    text.append(", source=");
    text.append(description);
    text.append(")");
    text
}

/// Puts `ctx` in front of an error's chain of descriptions: `ctx` becomes the
/// description, and the former description heads the causes, followed by the
/// former causes.
pub fn push_context(ctx: &str, source: String, causes: Vec<String>) -> (chain: (String, Vec<String>))
    ensures
        chain.0@ == ctx@,
        texts(chain.1@) == seq![source@] + texts(causes@),
{
    let mut causes = causes;
    let ghost before = causes@;
    causes.insert(0, source);
    proof {
        assert(causes@ =~= seq![source] + before);
        assert(texts(causes@) =~= seq![source@] + texts(before));
    }
    (ctx.to_string(), causes)
}

} // verus!
