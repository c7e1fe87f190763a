use vstd::prelude::*;

verus! {

/// A candidate node for rendezvous: anything with a textual identifier.
pub trait Node {
    /// The identifier of this node, as the proofs see it.
    spec fn id_view(&self) -> Seq<char>;

    /// The identifier of this node.
    fn node_id(&self) -> (id: &str)
        ensures
            id@ == self.id_view(),
    ;
}

impl Node for String {
    open spec fn id_view(&self) -> Seq<char> {
        self@
    }

    fn node_id(&self) -> (id: &str) {
        self.as_str()
    }
}

/// A node that is its own identifier.
#[derive(Debug, Clone)]
pub struct IdNode<T>(T);

impl<T> IdNode<T> {
    /// The value that this node wraps.
    pub closed spec fn inner(&self) -> T {
        self.0
    }

    /// Makes a node of `node`.
    pub fn new(node: T) -> (id_node: IdNode<T>)
        ensures
            id_node.inner() == node,
    {
        IdNode(node)
    }

    /// The value that this node wraps.
    pub fn into_inner(self) -> (node: T)
        ensures
            node == self.inner(),
    {
        self.0
    }

    /// A reference to the value that this node wraps.
    pub fn get(&self) -> (node: &T)
        ensures
            *node == self.inner(),
    {
        &self.0
    }
}

impl Node for IdNode<String> {
    open spec fn id_view(&self) -> Seq<char> {
        self.inner()@
    }

    fn node_id(&self) -> (id: &str) {
        self.0.as_str()
    }
}

/// A node identified by its key, carrying a value.
#[derive(Debug, Clone)]
pub struct KeyValueNode<K, V> {
    /// The key of this node.
    pub key: K,
    /// The value of this node.
    pub value: V,
}

impl<K, V> KeyValueNode<K, V> {
    /// Makes a node of `key` and `value`.
    pub fn new(key: K, value: V) -> (node: KeyValueNode<K, V>)
        ensures
            node.key == key,
            node.value == value,
    {
        KeyValueNode { key, value }
    }
}

impl<V> Node for KeyValueNode<String, V> {
    open spec fn id_view(&self) -> Seq<char> {
        self.key@
    }

    fn node_id(&self) -> (id: &str) {
        self.key.as_str()
    }
}

} // verus!
