//! A plain, immutable model of one parsed HTML document.
//!
//! The document is a sequence of elements in document (pre-)order.  Each
//! element carries what the rules read: its tag name, its attributes, its
//! class list, the concatenated text of its subtree, its serialized markup,
//! and the index of its parent.  Whoever parses a file builds this model and
//! hands it to the library; the rules never see the parser.

use vstd::prelude::*;

use crate::scan::str_eq;

verus! {

/// One attribute of an element.
pub struct Attr {
    pub name: String,
    pub value: String,
}

/// One element of a document.
pub struct Elem {
    /// The (lower-case) tag name.
    pub tag: String,
    /// The attributes, in document order.
    pub attrs: Vec<Attr>,
    /// The classes the element carries.
    pub classes: Vec<String>,
    /// The index of the parent element; `None` for the root.
    pub parent: Option<usize>,
    /// The concatenated text of the element's subtree.
    pub text: String,
    /// The serialized markup of the element.
    pub markup: String,
}

/// A parsed document: its elements in document order, the root first.
pub struct Doc {
    pub elems: Vec<Elem>,
}

/// The value of the first attribute named `name`, if any.
pub open spec fn attr_search(attrs: Seq<Attr>, name: Seq<char>) -> Option<Seq<char>>
    decreases attrs.len(),
{
    if attrs.len() == 0 {
        None
    } else if attrs[0].name@ == name {
        Some(attrs[0].value@)
    } else {
        attr_search(attrs.drop_first(), name)
    }
}

/// The value of the first attribute of `e` named `name`, if any.
pub open spec fn attr_of(e: Elem, name: Seq<char>) -> Option<Seq<char>> {
    attr_search(e.attrs@, name)
}

/// Whether `e` carries an attribute named `name`.
pub open spec fn has_attr(e: Elem, name: Seq<char>) -> bool {
    attr_of(e, name) is Some
}

/// Whether `e` carries the class `name`, compared exactly.
pub open spec fn has_class(e: Elem, name: Seq<char>) -> bool {
    exists|k: int| 0 <= k < e.classes@.len() && e.classes@[k]@ == name
}

/// ASCII case folding of one character, as a code point.
pub open spec fn fold_ascii(c: char) -> int {
    if 'A' <= c && c <= 'Z' {
        c as int + 32
    } else {
        c as int
    }
}

/// Character sequences equal up to ASCII case.
pub open spec fn seq_eq_ascii_ci(a: Seq<char>, b: Seq<char>) -> bool {
    a.len() == b.len() && forall|k: int| 0 <= k < a.len() ==> fold_ascii(a[k]) == fold_ascii(b[k])
}

/// Whether `e` carries the class `name`, compared up to ASCII case.
pub open spec fn has_class_ci(e: Elem, name: Seq<char>) -> bool {
    exists|k: int| 0 <= k < e.classes@.len() && seq_eq_ascii_ci(e.classes@[k]@, name)
}

/// Whether element `i` is a strict descendant of element `a`: its parent
/// chain, which in a well-formed document only moves to smaller indices,
/// reaches `a`.
pub open spec fn is_desc(es: Seq<Elem>, a: int, i: int) -> bool
    decreases i,
{
    if 0 <= i < es.len() {
        match es[i].parent {
            Some(p) => p < i && (p == a || is_desc(es, a, p as int)),
            None => false,
        }
    } else {
        false
    }
}

impl Doc {
    /// Well-formedness: there is at least one element, the first element is
    /// the root, and every parent comes before its children.
    pub open spec fn wf(&self) -> bool {
        &&& self.elems@.len() >= 1
        &&& self.elems@[0].parent is None
        &&& forall|i: int|
            0 <= i < self.elems@.len() && #[trigger] self.elems@[i].parent is Some
                ==> self.elems@[i].parent->0 < i
    }

    /// Decides well-formedness, so that an unverified caller can establish
    /// it before handing a document to the rules.
    pub fn check_wf(&self) -> (b: bool)
        ensures
            b == self.wf(),
    {
        let n = self.elems.len();
        if n == 0 {
            return false;
        }
        if self.elems[0].parent.is_some() {
            return false;
        }
        let mut i: usize = 0;
        while i < n
            invariant
                n == self.elems@.len(),
                i <= n,
                forall|j: int|
                    0 <= j < i && #[trigger] self.elems@[j].parent is Some
                        ==> self.elems@[j].parent->0 < j,
            decreases n - i,
        {
            match self.elems[i].parent {
                Some(p) => {
                    if p >= i {
                        return false;
                    }
                },
                None => {},
            }
            i = i + 1;
        }
        true
    }
}

/// Looks up the first attribute of `e` named `name`.
pub fn get_attr<'a>(e: &'a Elem, name: &str) -> (r: Option<&'a String>)
    ensures
        match r {
            Some(v) => attr_of(*e, name@) == Some(v@),
            None => attr_of(*e, name@) is None,
        },
{
    let n = e.attrs.len();
    assert(e.attrs@.subrange(0, n as int) =~= e.attrs@);
    let mut i: usize = 0;
    while i < n
        invariant
            n == e.attrs@.len(),
            i <= n,
            attr_search(e.attrs@, name@) == attr_search(e.attrs@.subrange(i as int, n as int), name@),
        decreases n - i,
    {
        let ghost pre = e.attrs@.subrange(i as int, n as int);
        if str_eq(e.attrs[i].name.as_str(), name) {
            assert(attr_search(pre, name@) == Some(e.attrs@[i as int].value@));
            return Some(&e.attrs[i].value);
        }
        assert(pre.drop_first() =~= e.attrs@.subrange(i + 1 as int, n as int));
        i = i + 1;
    }
    assert(e.attrs@.subrange(i as int, n as int).len() == 0);
    None
}

/// Whether `e` carries an attribute named `name`.
pub fn elem_has_attr(e: &Elem, name: &str) -> (b: bool)
    ensures
        b == has_attr(*e, name@),
{
    get_attr(e, name).is_some()
}

/// Whether `e` carries the class `name`, compared exactly.
pub fn elem_has_class(e: &Elem, name: &str) -> (b: bool)
    ensures
        b == has_class(*e, name@),
{
    let n = e.classes.len();
    let mut i: usize = 0;
    while i < n
        invariant
            n == e.classes@.len(),
            i <= n,
            forall|k: int| 0 <= k < i ==> e.classes@[k]@ != name@,
        decreases n - i,
    {
        if str_eq(e.classes[i].as_str(), name) {
            return true;
        }
        i = i + 1;
    }
    false
}

fn char_eq_ascii_ci(a: char, b: char) -> (r: bool)
    ensures
        r == (fold_ascii(a) == fold_ascii(b)),
{
    let fa: u32 = if 'A' <= a && a <= 'Z' {
        a as u32 + 32
    } else {
        a as u32
    };
    let fb: u32 = if 'A' <= b && b <= 'Z' {
        b as u32 + 32
    } else {
        b as u32
    };
    fa == fb
}

/// String equality up to ASCII case, stated over the views.
pub fn str_eq_ascii_ci(a: &str, b: &str) -> (r: bool)
    ensures
        r == seq_eq_ascii_ci(a@, b@),
{
    let n = a.unicode_len();
    let m = b.unicode_len();
    if n != m {
        return false;
    }
    let mut i: usize = 0;
    while i < n
        invariant
            n == a@.len(),
            n == b@.len(),
            i <= n,
            forall|k: int| 0 <= k < i ==> fold_ascii(a@[k]) == fold_ascii(b@[k]),
        decreases n - i,
    {
        if !char_eq_ascii_ci(a.get_char(i), b.get_char(i)) {
            return false;
        }
        i = i + 1;
    }
    true
}

/// Whether `e` carries the class `name`, compared up to ASCII case.
pub fn elem_has_class_ci(e: &Elem, name: &str) -> (b: bool)
    ensures
        b == has_class_ci(*e, name@),
{
    let n = e.classes.len();
    let mut i: usize = 0;
    while i < n
        invariant
            n == e.classes@.len(),
            i <= n,
            forall|k: int| 0 <= k < i ==> !seq_eq_ascii_ci(e.classes@[k]@, name@),
        decreases n - i,
    {
        if str_eq_ascii_ci(e.classes[i].as_str(), name) {
            return true;
        }
        i = i + 1;
    }
    false
}

/// Whether element `i` is a strict descendant of element `a`.
pub fn is_descendant(doc: &Doc, a: usize, i: usize) -> (r: bool)
    requires
        doc.wf(),
        i < doc.elems@.len(),
    ensures
        r == is_desc(doc.elems@, a as int, i as int),
    decreases i,
{
    match doc.elems[i].parent {
        Some(p) => {
            assert(p < i);
            if p == a {
                true
            } else {
                is_descendant(doc, a, p)
            }
        },
        None => false,
    }
}

} // verus!
