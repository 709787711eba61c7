//! The element tree the listing logic consumes.
//!
//! The wire format arrives as XML; parsing the raw bytes is the
//! transport's business.  What the library works on is this plain tree
//! of names, namespaces, text and children.

use vstd::prelude::*;
use crate::text::str_eq;

verus! {

/// One node of an already-parsed XML document.
#[derive(Debug)]
pub struct XmlElement {
    /// Local tag name.
    pub name: String,
    /// Namespace the tag lives in.
    pub namespace: String,
    /// Text content of the node.
    pub text: String,
    /// Direct child elements, in document order.
    pub children: Vec<XmlElement>,
}

/// The element carries the given tag name and namespace.
pub open spec fn elem_is(e: XmlElement, name: Seq<char>, ns: Seq<char>) -> bool {
    e.name@ == name && e.namespace@ == ns
}

/// The first element of `s` with the given name and namespace, if any.
pub open spec fn first_child(s: Seq<XmlElement>, name: Seq<char>, ns: Seq<char>) -> Option<
    XmlElement,
>
    decreases s.len(),
{
    if s.len() == 0 {
        None
    } else if elem_is(s[0], name, ns) {
        Some(s[0])
    } else {
        first_child(s.drop_first(), name, ns)
    }
}

impl XmlElement {
    /// Whether this element has the given tag name and namespace.
    pub fn is_named(&self, name: &str, namespace: &str) -> (r: bool)
        ensures
            r == elem_is(*self, name@, namespace@),
    {
        str_eq(self.name.as_str(), name) && str_eq(self.namespace.as_str(), namespace)
    }

    /// The first direct child with the given tag name and namespace.
    pub fn get_child(&self, name: &str, namespace: &str) -> (r: Option<&XmlElement>)
        ensures
            match r {
                Some(c) => first_child(self.children@, name@, namespace@) == Some(*c),
                None => first_child(self.children@, name@, namespace@) is None,
            },
    {
        let n = self.children.len();
        let mut i: usize = 0;
        proof {
            assert(self.children@.subrange(0, n as int) =~= self.children@);
        }
        while i < n
            invariant
                n == self.children@.len(),
                i <= n,
                first_child(self.children@, name@, namespace@) == first_child(
                    self.children@.subrange(i as int, n as int),
                    name@,
                    namespace@,
                ),
            decreases n - i,
        {
            proof {
                assert(self.children@.subrange(i as int, n as int)[0] == self.children@[i as int]);
            }
            if self.children[i].is_named(name, namespace) {
                return Some(&self.children[i]);
            }
            proof {
                assert(self.children@.subrange(i as int, n as int).drop_first() =~= self
                    .children@.subrange(i + 1 as int, n as int));
            }
            i = i + 1;
        }
        None
    }
}

} // verus!
