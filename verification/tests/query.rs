use bayard::index::token_filter::{FilterFactoryErrorKind, FilterKind};
use bayard::index::tokenizer::{TokenizerFactoryErrorKind, TokenizerKind};
use bayard::proto::index::query::Kind;
use bayard::proto::index::sort::Order;
use bayard::proto::index::{CollectionKind, Query};
use bayard::search::query::boolean::{BooleanQueryArgs, Occurrence, SubQuery};
use bayard::search::query::query_string::QueryStringQueryArgs;
use bayard::search::query::{query_kind_of, QueryFactoryErrorKind};

#[test]
fn query_kinds_by_name_and_code() {
    let names = [
        ("all", Kind::All),
        ("boolean", Kind::Boolean),
        ("boost", Kind::Boost),
        ("fuzzy_term", Kind::FuzzyTerm),
        ("phrase", Kind::Phrase),
        ("query_string", Kind::QueryString),
        ("range", Kind::Range),
        ("regex", Kind::Regex),
        ("term", Kind::Term),
    ];
    for (name, kind) in names {
        assert_eq!(Kind::from_str(name), Some(kind));
        assert_eq!(Kind::from_i32(kind.to_i32()), Some(kind));
    }
    assert_eq!(Kind::from_str("unknown"), None);
    assert_eq!(Kind::from_str("Term"), None);
    assert_eq!(Kind::Term.to_i32(), 9);
    assert_eq!(Kind::from_i32(10), None);
    assert_eq!(Kind::FuzzyTerm.as_str_name(), "FUZZY_TERM");
}

#[test]
fn query_kind_of_refuses_unknown_codes() {
    assert_eq!(query_kind_of(9).unwrap(), Kind::Term);
    assert_eq!(query_kind_of(0).unwrap_err().kind(), QueryFactoryErrorKind::InvalidArgument);
    assert_eq!(query_kind_of(-1).unwrap_err().kind(), QueryFactoryErrorKind::InvalidArgument);
    assert_eq!(query_kind_of(-1).unwrap_err().source_text(), "Undefined query kind -1");
    assert_eq!(query_kind_of(42).unwrap_err().source_text(), "Undefined query kind 42");
    assert_eq!(query_kind_of(0).unwrap_err().source_text(), "Unsupported query kind Unknown");
}

#[test]
fn orders_and_collection_kinds() {
    assert_eq!(Order::from_i32(1), Some(Order::Asc));
    assert_eq!(Order::from_i32(2), Some(Order::Desc));
    assert_eq!(Order::from_i32(0), Some(Order::Unknown));
    assert_eq!(Order::from_i32(3), None);
    assert_eq!(Order::from_i64(2), Some(Order::Desc));
    assert_eq!(Order::from_i64(-1), None);
    assert_eq!(Order::from_u64(1), Some(Order::Asc));
    assert_eq!(Order::from_u64(1 << 40), None);
    assert_eq!(Order::Desc.as_str_name(), "DESC");
    assert_eq!(CollectionKind::from_i32(2), Some(CollectionKind::Count));
    assert_eq!(CollectionKind::from_i32(4), None);
    assert_eq!(CollectionKind::TopDocs.to_i32(), 3);
    assert!(CollectionKind::CountAndTopDocs.counts());
    assert!(CollectionKind::CountAndTopDocs.collects_top_docs());
    assert!(CollectionKind::Count.counts() && !CollectionKind::Count.collects_top_docs());
    assert!(!CollectionKind::TopDocs.counts() && CollectionKind::TopDocs.collects_top_docs());
    assert!(!CollectionKind::Unknown.counts() && !CollectionKind::Unknown.collects_top_docs());
}

#[test]
fn occurrences_by_name() {
    for o in [Occurrence::Must, Occurrence::MustNot, Occurrence::Should] {
        assert_eq!(Occurrence::from_name(o.name()), Some(o));
    }
    assert_eq!(Occurrence::MustNot.name(), "must_not");
    assert_eq!(Occurrence::from_name("filter"), None);
}

#[test]
fn subqueries_from_descriptions() {
    let options = br#"{"term":"hello","field":"description"}"#.to_vec();
    let subquery = SubQuery::from_description(Occurrence::Must, "term", options.clone()).unwrap();
    assert_eq!(subquery.occurrence, Occurrence::Must);
    assert_eq!(subquery.query.kind, Kind::Term.to_i32());
    assert_eq!(subquery.query.options, options);
    assert!(SubQuery::from_description(Occurrence::Should, "nope", Vec::new()).is_none());

    let args = BooleanQueryArgs::new(vec![
        subquery,
        SubQuery::new(Occurrence::MustNot, Query { kind: 9, options: Vec::new() }),
    ]);
    assert_eq!(args.subqueries().len(), 2);
    assert_eq!(args.subqueries()[1].occurrence, Occurrence::MustNot);
}

#[test]
fn query_string_needs_default_fields() {
    let args = QueryStringQueryArgs {
        query: "search engine".to_string(),
        default_search_fields: vec!["name".to_string()],
    };
    assert!(args.check_default_fields().is_ok());
    let args = QueryStringQueryArgs { query: "x".to_string(), default_search_fields: Vec::new() };
    assert_eq!(
        args.check_default_fields().unwrap_err().kind(),
        QueryFactoryErrorKind::InvalidArgument
    );
}

#[test]
fn filter_and_tokenizer_kinds() {
    assert_eq!(FilterKind::from_str("alpha_num_only").unwrap(), FilterKind::AlphaNumOnly);
    assert_eq!(FilterKind::from_str("ascii_folding").unwrap(), FilterKind::AsciiFolding);
    assert_eq!(FilterKind::from_str("lower_case").unwrap(), FilterKind::LowerCase);
    assert_eq!(FilterKind::from_str("remove_long").unwrap(), FilterKind::RemoveLong);
    assert_eq!(FilterKind::from_str("stemming").unwrap(), FilterKind::Stemming);
    assert_eq!(FilterKind::from_str("stop_word").unwrap(), FilterKind::StopWord);
    let error = FilterKind::from_str("upper_case").unwrap_err();
    assert_eq!(error.kind(), FilterFactoryErrorKind::InvalidFilterKind);
    assert_eq!(error.source_text(), "Unknown filter kind: upper_case");

    assert_eq!(TokenizerKind::from_str("lindera").unwrap(), TokenizerKind::Lindera);
    assert_eq!(TokenizerKind::from_str("ngram").unwrap(), TokenizerKind::Ngram);
    assert_eq!(TokenizerKind::from_str("raw").unwrap(), TokenizerKind::Raw);
    assert_eq!(TokenizerKind::from_str("simple").unwrap(), TokenizerKind::Simple);
    assert_eq!(TokenizerKind::from_str("whitespace").unwrap(), TokenizerKind::Whitespace);
    let error = TokenizerKind::from_str("unigram").unwrap_err();
    assert_eq!(error.kind(), TokenizerFactoryErrorKind::InvalidTokenizerKind);
}
