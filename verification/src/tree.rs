//! The element tree data model: an element owns its ordered attribute list
//! (duplicates kept in order) and its children exclusively; there are no
//! cross-links and no cycles.
use vstd::prelude::*;

verus! {

/// One node of parsed markup: a child element, character data, or a
/// comment.
#[derive(Debug)]
pub enum Node {
    Element(Element),
    Text(String),
    Comment(String),
}

/// An element with its name, ordered attribute list, and children.
#[derive(Debug)]
pub struct Element {
    pub name: String,
    pub attrs: Vec<(String, String)>,
    pub children: Vec<Node>,
}

/// Value of the attribute `key` in an ordered attribute list; with
/// duplicate keys the last occurrence wins.
pub open spec fn last_attr_spec(attrs: Seq<(Seq<char>, Seq<char>)>, key: Seq<char>) -> Option<
    Seq<char>,
>
    decreases attrs.len(),
{
    if attrs.len() == 0 {
        None
    } else if attrs.last().0 == key {
        Some(attrs.last().1)
    } else {
        last_attr_spec(attrs.drop_last(), key)
    }
}

impl Element {
    /// The attribute list as key/value character sequences.
    pub open spec fn attrs_view(&self) -> Seq<(Seq<char>, Seq<char>)> {
        self.attrs@.map_values(|p: (String, String)| (p.0@, p.1@))
    }

    /// Looks up an attribute value by key; the last occurrence wins.
    #[verifier::loop_isolation(false)]
    pub fn attr<'a>(&'a self, key: &str) -> (r: Option<&'a String>)
        ensures
            match r {
                Some(v) => last_attr_spec(self.attrs_view(), key@) == Some(v@),
                None => last_attr_spec(self.attrs_view(), key@) is None,
            },
    {
        let n = self.attrs.len();
        let mut i: usize = n;
        proof {
            assert(self.attrs_view().take(n as int) =~= self.attrs_view());
        }
        while i > 0
            invariant
                0 <= i <= n,
                n == self.attrs@.len(),
                last_attr_spec(self.attrs_view(), key@) == last_attr_spec(
                    self.attrs_view().take(i as int),
                    key@,
                ),
            decreases i,
        {
            i = i - 1;
            let ka: &String = &self.attrs[i].0;
            proof {
                assert(self.attrs_view().take(i as int + 1).last() == (
                    ka@,
                    self.attrs@[i as int].1@,
                ));
                assert(self.attrs_view().take(i as int + 1).drop_last() =~= self.attrs_view().take(
                    i as int,
                ));
            }
            if crate::scan::bytes_eq(ka.as_str().as_bytes(), key.as_bytes()) {
                proof {
                    vstd::utf8::encode_utf8_decode_utf8(ka@);
                    vstd::utf8::encode_utf8_decode_utf8(key@);
                }
                return Some(&self.attrs[i].1);
            }
        }
        proof {
            assert(self.attrs_view().take(0) =~= Seq::<(Seq<char>, Seq<char>)>::empty());
        }
        None
    }
}

} // verus!
