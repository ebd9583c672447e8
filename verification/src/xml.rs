//! The attributed element tree the importer consumes.
//!
//! The tree is already fully materialized when the import starts; this
//! module gives it the minimal accessor contract everything else is built
//! on: attribute lookup by name, lookup of the unique child element with a
//! given name, text content, and numeric conveniences that compose a lookup
//! with a described parse failure.

use vstd::prelude::*;

use crate::error::Error;
use crate::error::NumericKind;
use crate::float::FloatBits;
use crate::float::f32_of_text;
use crate::float::parse_f32;
use crate::text::parse_usize;
use crate::text::spec_parse_usize;
use crate::text::str_eq;

verus! {

/// One element of the document tree: a name, attributes in document order,
/// child elements in document order, and optional text content.
pub struct Element {
    pub name: String,
    pub attributes: Vec<(String, String)>,
    pub children: Vec<Element>,
    pub text: Option<String>,
}

/// The value of the first attribute named `name`, if any.
pub open spec fn spec_attr(attrs: Seq<(String, String)>, name: Seq<char>) -> Option<String>
    decreases attrs.len(),
{
    if attrs.len() == 0 {
        None
    } else if spec_attr(attrs.drop_last(), name) is Some {
        spec_attr(attrs.drop_last(), name)
    } else if attrs.last().0@ == name {
        Some(attrs.last().1)
    } else {
        None
    }
}

/// The unique child of `e` named `name`, when exactly one exists.
pub open spec fn unique_child(e: Element, name: Seq<char>) -> Option<Element> {
    if count_named(e.children@, name) == 1 {
        Some(first_named(e.children@, name))
    } else {
        None
    }
}

/// The text of the unique child of `e` named `name`, when both exist.
pub open spec fn child_text(e: Element, name: Seq<char>) -> Option<String> {
    match unique_child(e, name) {
        Some(c) => c.text,
        None => None,
    }
}

/// How many children of `s` are named `name`.
pub open spec fn count_named(s: Seq<Element>, name: Seq<char>) -> nat
    decreases s.len(),
{
    if s.len() == 0 {
        0
    } else {
        count_named(s.drop_last(), name) + if s.last().name@ == name {
            1nat
        } else {
            0nat
        }
    }
}

/// The first child of `s` named `name` (meaningful when one exists).
pub open spec fn first_named(s: Seq<Element>, name: Seq<char>) -> Element
    decreases s.len(),
{
    if s.len() == 0 {
        arbitrary()
    } else if count_named(s.drop_last(), name) > 0 {
        first_named(s.drop_last(), name)
    } else {
        s.last()
    }
}

proof fn lemma_attr_extends(attrs: Seq<(String, String)>, name: Seq<char>, j: int)
    requires
        0 <= j <= attrs.len(),
        spec_attr(attrs.take(j), name) is Some,
    ensures
        spec_attr(attrs, name) == spec_attr(attrs.take(j), name),
    decreases attrs.len() - j,
{
    if j < attrs.len() {
        assert(attrs.take(j + 1).drop_last() =~= attrs.take(j));
        lemma_attr_extends(attrs, name, j + 1);
    } else {
        assert(attrs.take(j) =~= attrs);
    }
}

proof fn lemma_count_monotone(s: Seq<Element>, name: Seq<char>, j: int)
    requires
        0 <= j <= s.len(),
    ensures
        count_named(s, name) >= count_named(s.take(j), name),
    decreases s.len() - j,
{
    if j < s.len() {
        assert(s.take(j + 1).drop_last() =~= s.take(j));
        lemma_count_monotone(s, name, j + 1);
    } else {
        assert(s.take(j) =~= s);
    }
}

pub proof fn lemma_first_extends(s: Seq<Element>, name: Seq<char>, j: int)
    requires
        0 <= j <= s.len(),
        count_named(s.take(j), name) > 0,
    ensures
        first_named(s, name) == first_named(s.take(j), name),
    decreases s.len() - j,
{
    if j < s.len() {
        assert(s.take(j + 1).drop_last() =~= s.take(j));
        lemma_first_extends(s, name, j + 1);
    } else {
        assert(s.take(j) =~= s);
    }
}

impl Element {
    /// Looks up the attribute named `name`, or reports it missing.
    pub fn get_attribute(&self, name: &str) -> (r: Result<&String, Error>)
        ensures
            match r {
                Ok(v) => spec_attr(self.attributes@, name@) == Some(*v),
                Err(e) => e matches Error::MissingAttribute { element_name, attribute_name }
                    && element_name@ == self.name@ && attribute_name@ == name@ && spec_attr(
                    self.attributes@,
                    name@,
                ) is None,
            },
    {
        let n = self.attributes.len();
        let mut i: usize = 0;
        while i < n
            invariant
                n == self.attributes@.len(),
                i <= n,
                spec_attr(self.attributes@.take(i as int), name@) is None,
            decreases n - i,
        {
            proof {
                assert(self.attributes@.take(i + 1).drop_last() =~= self.attributes@.take(
                    i as int,
                ));
            }
            if str_eq(self.attributes[i].0.as_str(), name) {
                proof {
                    lemma_attr_extends(self.attributes@, name@, i + 1);
                }
                return Ok(&self.attributes[i].1);
            }
            i = i + 1;
        }
        proof {
            assert(self.attributes@.take(n as int) =~= self.attributes@);
        }
        Err(
            Error::MissingAttribute {
                element_name: self.name.clone(),
                attribute_name: name.to_owned(),
            },
        )
    }

    /// Looks up the unique child element named `name`; it is an error for
    /// no child or for more than one child to carry that name.
    pub fn get_element(&self, name: &str) -> (r: Result<&Element, Error>)
        ensures
            match r {
                Ok(c) => count_named(self.children@, name@) == 1 && *c == first_named(
                    self.children@,
                    name@,
                ),
                Err(e) => e matches Error::MissingElement { element_name, child_name, ambiguous }
                    && element_name@ == self.name@ && child_name@ == name@ && (if ambiguous {
                    count_named(self.children@, name@) >= 2
                } else {
                    count_named(self.children@, name@) == 0
                }),
            },
    {
        let n = self.children.len();
        let mut found: Option<usize> = None;
        let mut i: usize = 0;
        while i < n
            invariant
                n == self.children@.len(),
                i <= n,
                match found {
                    Some(f) => f < i && count_named(self.children@.take(i as int), name@) == 1
                        && first_named(self.children@.take(i as int), name@) == self.children@[
                        f as int
                    ],
                    None => count_named(self.children@.take(i as int), name@) == 0,
                },
            decreases n - i,
        {
            proof {
                assert(self.children@.take(i + 1).drop_last() =~= self.children@.take(i as int));
            }
            if str_eq(self.children[i].name.as_str(), name) {
                match found {
                    Some(_) => {
                        proof {
                            lemma_count_monotone(self.children@, name@, i + 1);
                        }
                        return Err(
                            Error::MissingElement {
                                element_name: self.name.clone(),
                                child_name: name.to_owned(),
                                ambiguous: true,
                            },
                        );
                    },
                    None => {
                        found = Some(i);
                    },
                }
            }
            i = i + 1;
        }
        proof {
            assert(self.children@.take(n as int) =~= self.children@);
        }
        match found {
            Some(f) => Ok(&self.children[f]),
            None => Err(
                Error::MissingElement {
                    element_name: self.name.clone(),
                    child_name: name.to_owned(),
                    ambiguous: false,
                },
            ),
        }
    }

    /// The element's text content, or an error when it has none.
    pub fn get_text(&self) -> (r: Result<&String, Error>)
        ensures
            match r {
                Ok(t) => self.text == Some(*t),
                Err(e) => e matches Error::MissingText { element_name } && element_name@
                    == self.name@ && self.text is None,
            },
    {
        match &self.text {
            Some(t) => Ok(t),
            None => Err(Error::MissingText { element_name: self.name.clone() }),
        }
    }

    /// Looks up attribute `name` and parses it as an unsigned integer.
    pub fn parse_attribute_as_usize(&self, name: &str) -> (r: Result<usize, Error>)
        ensures
            match r {
                Ok(u) => spec_attr(self.attributes@, name@) matches Some(t) && spec_parse_usize(
                    t@,
                ) == Some(u),
                Err(e) => match e {
                    Error::MissingAttribute { element_name, attribute_name } => spec_attr(
                        self.attributes@,
                        name@,
                    ) is None && element_name@ == self.name@ && attribute_name@ == name@,
                    Error::NumericParse { kind, field, token } => spec_attr(
                        self.attributes@,
                        name@,
                    ) matches Some(t) && spec_parse_usize(t@) is None && kind
                        == NumericKind::Unsigned && field@ == name@ && token == t,
                    _ => false,
                },
            },
    {
        let v = match self.get_attribute(name) {
            Ok(v) => v,
            Err(e) => {
                return Err(e);
            },
        };
        match parse_usize(v.as_str()) {
            Some(u) => Ok(u),
            None => Err(
                Error::NumericParse {
                    kind: NumericKind::Unsigned,
                    field: name.to_owned(),
                    token: v.clone(),
                },
            ),
        }
    }

    /// Looks up attribute `name` and parses it as a 32-bit float.
    pub fn parse_attribute_as_f32(&self, name: &str) -> (r: Result<FloatBits, Error>)
        ensures
            match r {
                Ok(f) => spec_attr(self.attributes@, name@) matches Some(t) && f32_of_text(t@)
                    == Some(f.bits),
                Err(e) => match e {
                    Error::MissingAttribute { element_name, attribute_name } => spec_attr(
                        self.attributes@,
                        name@,
                    ) is None && element_name@ == self.name@ && attribute_name@ == name@,
                    Error::NumericParse { kind, field, token } => spec_attr(
                        self.attributes@,
                        name@,
                    ) matches Some(t) && f32_of_text(t@) is None && kind == NumericKind::Float
                        && field@ == name@ && token == t,
                    _ => false,
                },
            },
    {
        let v = match self.get_attribute(name) {
            Ok(v) => v,
            Err(e) => {
                return Err(e);
            },
        };
        match parse_f32(v.as_str()) {
            Some(f) => Ok(f),
            None => Err(
                Error::NumericParse {
                    kind: NumericKind::Float,
                    field: name.to_owned(),
                    token: v.clone(),
                },
            ),
        }
    }

    /// Looks up the unique child named `name` and parses its text as an
    /// unsigned integer.
    pub fn parse_text_as_usize(&self, name: &str) -> (r: Result<usize, Error>)
        ensures
            match r {
                Ok(u) => first_named(self.children@, name@).text matches Some(t)
                    && spec_parse_usize(t@) == Some(u) && count_named(self.children@, name@) == 1,
                Err(e) => match e {
                    Error::MissingElement { element_name, child_name, ambiguous } => element_name@
                        == self.name@ && child_name@ == name@ && (if ambiguous {
                        count_named(self.children@, name@) >= 2
                    } else {
                        count_named(self.children@, name@) == 0
                    }),
                    Error::MissingText { element_name } => count_named(self.children@, name@) == 1
                        && first_named(self.children@, name@).text is None && element_name@
                        == first_named(self.children@, name@).name@,
                    Error::NumericParse { kind, field, token } => first_named(
                        self.children@,
                        name@,
                    ).text matches Some(t) && token@ == t@ && spec_parse_usize(t@) is None && kind
                        == NumericKind::Unsigned && field@ == name@ && count_named(
                        self.children@,
                        name@,
                    ) == 1,
                    _ => false,
                },
            },
    {
        let child = match self.get_element(name) {
            Ok(c) => c,
            Err(e) => {
                return Err(e);
            },
        };
        let t = match child.get_text() {
            Ok(t) => t,
            Err(e) => {
                return Err(e);
            },
        };
        match parse_usize(t.as_str()) {
            Some(u) => Ok(u),
            None => Err(
                Error::NumericParse {
                    kind: NumericKind::Unsigned,
                    field: name.to_owned(),
                    token: t.clone(),
                },
            ),
        }
    }

    /// Looks up the unique child named `name` and parses its text as a
    /// 32-bit float.
    pub fn parse_text_as_f32(&self, name: &str) -> (r: Result<FloatBits, Error>)
        ensures
            match r {
                Ok(f) => first_named(self.children@, name@).text matches Some(t) && f32_of_text(
                    t@,
                ) == Some(f.bits) && count_named(self.children@, name@) == 1,
                Err(e) => match e {
                    Error::MissingElement { element_name, child_name, ambiguous } => element_name@
                        == self.name@ && child_name@ == name@ && (if ambiguous {
                        count_named(self.children@, name@) >= 2
                    } else {
                        count_named(self.children@, name@) == 0
                    }),
                    Error::MissingText { element_name } => count_named(self.children@, name@) == 1
                        && first_named(self.children@, name@).text is None && element_name@
                        == first_named(self.children@, name@).name@,
                    Error::NumericParse { kind, field, token } => first_named(
                        self.children@,
                        name@,
                    ).text matches Some(t) && token@ == t@ && f32_of_text(t@) is None && kind
                        == NumericKind::Float && field@ == name@ && count_named(
                        self.children@,
                        name@,
                    ) == 1,
                    _ => false,
                },
            },
    {
        let child = match self.get_element(name) {
            Ok(c) => c,
            Err(e) => {
                return Err(e);
            },
        };
        let t = match child.get_text() {
            Ok(t) => t,
            Err(e) => {
                return Err(e);
            },
        };
        match parse_f32(t.as_str()) {
            Some(f) => Ok(f),
            None => Err(
                Error::NumericParse {
                    kind: NumericKind::Float,
                    field: name.to_owned(),
                    token: t.clone(),
                },
            ),
        }
    }
}


/// The `j`-th child of `s` named `name`, counting from zero (meaningful
/// when at least `j + 1` exist).
pub open spec fn nth_named(s: Seq<Element>, name: Seq<char>, j: int) -> Element
    decreases s.len(),
{
    if s.len() == 0 {
        arbitrary()
    } else if s.last().name@ == name && count_named(s.drop_last(), name) == j {
        s.last()
    } else {
        nth_named(s.drop_last(), name, j)
    }
}

/// Counting and indexing the named children of a prefix agrees with the
/// whole list, as far as the prefix reaches.
pub proof fn lemma_nth_named_extends(s: Seq<Element>, name: Seq<char>, i: int, j: int)
    requires
        0 <= i <= s.len(),
        0 <= j < count_named(s.take(i), name),
    ensures
        nth_named(s, name, j) == nth_named(s.take(i), name, j),
    decreases s.len() - i,
{
    lemma_count_monotone_pub(s, name, i);
    if i < s.len() {
        assert(s.take(i + 1).drop_last() =~= s.take(i));
        lemma_nth_named_extends(s, name, i + 1, j);
    } else {
        assert(s.take(i) =~= s);
    }
}

/// A prefix never holds more named children than the whole list.
pub proof fn lemma_count_monotone_pub(s: Seq<Element>, name: Seq<char>, j: int)
    requires
        0 <= j <= s.len(),
    ensures
        count_named(s, name) >= count_named(s.take(j), name),
    decreases s.len() - j,
{
    if j < s.len() {
        assert(s.take(j + 1).drop_last() =~= s.take(j));
        lemma_count_monotone_pub(s, name, j + 1);
    } else {
        assert(s.take(j) =~= s);
    }
}

/// A child that does not carry `name` changes neither the count nor the
/// indexing of the named children.
pub proof fn lemma_named_skip(s: Seq<Element>, name: Seq<char>, i: int)
    requires
        0 <= i < s.len(),
        s[i].name@ != name,
    ensures
        count_named(s.take(i + 1), name) == count_named(s.take(i), name),
        forall|j: int| #![trigger nth_named(s.take(i + 1), name, j)]
            0 <= j ==> nth_named(s.take(i + 1), name, j) == nth_named(s.take(i), name, j),
{
    assert(s.take(i + 1).drop_last() =~= s.take(i));
    assert forall|j: int| 0 <= j implies nth_named(s.take(i + 1), name, j) == nth_named(
        s.take(i),
        name,
        j,
    ) by {
        assert(s.take(i + 1).last().name@ != name);
    }
}

/// The size of an element tree: itself plus all elements below it.
pub open spec fn elem_size(e: Element) -> nat
    decreases e,
{
    1 + children_size(e.children@)
}

/// The total size of a list of element trees.
pub open spec fn children_size(s: Seq<Element>) -> nat
    decreases s,
{
    if s.len() == 0 {
        0
    } else {
        elem_size(s[0]) + children_size(s.subrange(1, s.len() as int))
    }
}

/// Every element of a list is at most as large as the whole list.
pub proof fn lemma_child_size(s: Seq<Element>, i: int)
    requires
        0 <= i < s.len(),
    ensures
        elem_size(s[i]) <= children_size(s),
    decreases s.len(),
{
    if i > 0 {
        lemma_child_size(s.subrange(1, s.len() as int), i - 1);
        assert(s.subrange(1, s.len() as int)[i - 1] == s[i]);
    }
}

/// A child element is strictly smaller than its parent.
pub proof fn lemma_elem_child_size(e: Element, i: int)
    requires
        0 <= i < e.children@.len(),
    ensures
        elem_size(e.children@[i]) < elem_size(e),
{
    lemma_child_size(e.children@, i);
}

} // verus!
