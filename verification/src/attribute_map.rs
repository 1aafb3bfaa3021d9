//! The attributes of one section of a session description.
//!
//! An attribute map is an ordered multimap from names to attributes: it
//! keeps its entries in the order in which they came, and a name may come
//! several times. In contracts it is the sequence of its entries.

use vstd::prelude::*;
use ordered_multimap::ListOrderedMultimap;
use std::collections::hash_map::RandomState;
use crate::pairs::lookup;
use crate::registry::{
    attribute_grammar, parse_attribute, Attribute, AttributeView, NamedAttribute,
};
use crate::text::{chars_of, push_str, to_lower, lower};

verus! {

/// `ordered_multimap::ListOrderedMultimap`: a multimap that keeps its
/// entries in the order in which they were appended. Nothing inside it is
/// seen here; what it holds is named per use.
#[verifier::external_type_specification]
#[verifier::external_body]
#[verifier::reject_recursive_types(Key)]
#[verifier::reject_recursive_types(Value)]
#[verifier::reject_recursive_types(State)]
pub struct ExListOrderedMultimap<Key, Value, State>(ListOrderedMultimap<Key, Value, State>);

/// The entries of a multimap of attributes, in the order in which they were
/// appended.
pub uninterp spec fn attribute_entries(
    m: ListOrderedMultimap<String, Attribute, RandomState>,
) -> Seq<(Seq<char>, AttributeView)>;

/// The values of the entries with the given name, in order.
pub open spec fn values_named<W>(entries: Seq<(Seq<char>, W)>, name: Seq<char>) -> Seq<W>
    decreases entries.len(),
{
    if entries.len() == 0 {
        Seq::empty()
    } else if entries.last().0 == name {
        values_named(entries.drop_last(), name).push(entries.last().1)
    } else {
        values_named(entries.drop_last(), name)
    }
}

/// `ListOrderedMultimap::new`: a multimap without entries.
#[verifier::external_body]
fn entries_new() -> (m: ListOrderedMultimap<String, Attribute, RandomState>)
    ensures
        attribute_entries(m) == Seq::<(Seq<char>, AttributeView)>::empty(),
{
    ListOrderedMultimap::new()
}

/// `ListOrderedMultimap::append`: the new entry comes after all others,
/// whether or not the name was there before.
#[verifier::external_body]
fn entries_append(
    m: &mut ListOrderedMultimap<String, Attribute, RandomState>,
    name: String,
    attribute: Attribute,
)
    ensures
        attribute_entries(*final(m)) == attribute_entries(*old(m)).push(
            (name@, attribute.deep_view()),
        ),
{
    m.append(name, attribute);
}

/// `ListOrderedMultimap::get`: the value of the first entry with the name.
#[verifier::external_body]
fn entries_first<'a>(
    m: &'a ListOrderedMultimap<String, Attribute, RandomState>,
    name: &str,
) -> (r: Option<&'a Attribute>)
    ensures
        r.deep_view() == lookup(attribute_entries(*m), name@),
{
    m.get(name)
}

/// `ListOrderedMultimap::get_all`: the values of all entries with the name,
/// in the order in which they were appended.
#[verifier::external_body]
fn entries_all<'a>(
    m: &'a ListOrderedMultimap<String, Attribute, RandomState>,
    name: &str,
) -> (r: Vec<&'a Attribute>)
    ensures
        r.deep_view() == values_named(attribute_entries(*m), name@),
{
    m.get_all(name).collect()
}

/// `ListOrderedMultimap::iter`: all entries, in the order in which they
/// were appended.
#[verifier::external_body]
fn entries_pairs<'a>(m: &'a ListOrderedMultimap<String, Attribute, RandomState>) -> (r: Vec<
    (&'a String, &'a Attribute),
>)
    ensures
        r.deep_view() == attribute_entries(*m),
{
    m.iter().collect()
}

/// The attributes of a session or of a media section.
#[derive(Debug)]
pub struct AttributeMap(ListOrderedMultimap<String, Attribute, RandomState>);

impl DeepView for AttributeMap {
    type V = Seq<(Seq<char>, AttributeView)>;

    closed spec fn deep_view(&self) -> Seq<(Seq<char>, AttributeView)> {
        attribute_entries(self.0)
    }
}

/// The line that writes one attribute: `a=`, the name, a colon and the
/// value where there is one, and a line break.
pub open spec fn attribute_line(name: Seq<char>, attribute: AttributeView) -> Seq<char> {
    "a="@ + name + (match attribute.value() {
        Some(v) => seq![':'] + v,
        None => Seq::empty(),
    }) + "\r\n"@
}

/// The lines that write the entries, in order.
pub open spec fn attribute_lines(entries: Seq<(Seq<char>, AttributeView)>) -> Seq<char>
    decreases entries.len(),
{
    if entries.len() == 0 {
        Seq::empty()
    } else {
        attribute_lines(entries.drop_last()) + attribute_line(entries.last().0, entries.last().1)
    }
}

/// The values among `values` that are of type `T`, in order.
pub open spec fn values_of_type<T: NamedAttribute>(values: Seq<AttributeView>) -> Seq<T::V>
    decreases values.len(),
{
    if values.len() == 0 {
        Seq::empty()
    } else {
        match T::unwrapped(values.last()) {
            Some(v) => values_of_type::<T>(values.drop_last()).push(v),
            None => values_of_type::<T>(values.drop_last()),
        }
    }
}

/// The text that `append_unknown` reads a value from.
pub open spec fn value_text(value: Option<Seq<char>>) -> Seq<char> {
    match value {
        Some(v) => seq![':'] + v,
        None => Seq::empty(),
    }
}

impl AttributeMap {
    pub fn new() -> (r: Self)
        ensures
            r.deep_view() == Seq::<(Seq<char>, AttributeView)>::empty(),
    {
        AttributeMap(entries_new())
    }

    /// Appends an attribute under the name of its type.
    pub fn append<T: NamedAttribute>(&mut self, attribute: T)
        ensures
            final(self).deep_view() == old(self).deep_view().push(
                (T::name(), T::wrapped(attribute.deep_view())),
            ),
    {
        entries_append(&mut self.0, T::name_str().to_owned(), attribute.into_attribute());
    }

    /// Appends an attribute that was read by the grammar of its name.
    pub fn append_parsed(&mut self, name: String, attribute: Attribute)
        ensures
            final(self).deep_view() == old(self).deep_view().push((name@, attribute.deep_view())),
    {
        entries_append(&mut self.0, name, attribute);
    }

    /// Appends an attribute given by name and value. The name is put in
    /// lower case and the value is read by the grammar of that name, so an
    /// attribute with a type of its own is stored under that type. A value
    /// that the grammar refuses leaves the map as it was.
    pub fn append_unknown(&mut self, name: &str, value: Option<String>) -> (r: Result<(), String>)
        ensures
            match attribute_grammar(lower(name@), value_text(value.deep_view()), 0) {
                Some((attribute, _)) => r is Ok && final(self).deep_view() == old(self).deep_view().push(
                    (lower(name@), attribute),
                ),
                None => r is Err && r->Err_0@ == "malformed attribute value"@
                    && final(self).deep_view() == old(self).deep_view(),
            },
    {
        let name = to_lower(name);
        let mut text = String::new();
        if let Some(v) = &value {
            text.push(':');
            push_str(&mut text, v.as_str());
        }
        assert(text@ =~= value_text(value.deep_view()));
        let input = chars_of(text.as_str());
        match parse_attribute(name.as_str(), &input, 0) {
            Some((attribute, _)) => {
                entries_append(&mut self.0, name, attribute);
                Ok(())
            },
            None => Err("malformed attribute value".to_owned()),
        }
    }

    /// The first attribute stored under the name of `T`, if it is a `T`.
    pub fn get<T: NamedAttribute>(&self) -> (r: Option<&T>)
        ensures
            r.deep_view() == match lookup(self.deep_view(), T::name()) {
                Some(a) => T::unwrapped(a),
                None => None,
            },
    {
        match entries_first(&self.0, T::name_str()) {
            Some(a) => T::from_attribute(a),
            None => None,
        }
    }

    /// The value of the first attribute stored under `name`, as text.
    pub fn get_unknown(&self, name: &str) -> (r: Option<Option<String>>)
        ensures
            r.deep_view() == match lookup(self.deep_view(), name@) {
                Some(a) => Some(a.value()),
                None => None,
            },
    {
        match entries_first(&self.0, name) {
            Some(a) => Some(a.to_string()),
            None => None,
        }
    }

    /// All attributes stored under the name of `T` that are a `T`, in order.
    pub fn get_vec<T: NamedAttribute>(&self) -> (r: Vec<&T>)
        ensures
            r.deep_view() == values_of_type::<T>(values_named(self.deep_view(), T::name())),
    {
        let all = entries_all(&self.0, T::name_str());
        let ghost views = all.deep_view();
        let mut out: Vec<&T> = Vec::new();
        let mut i: usize = 0;
        assert(views.take(0) =~= Seq::<AttributeView>::empty());
        assert(out.deep_view() =~= Seq::<T::V>::empty());
        while i < all.len()
            invariant
                i <= all.len(),
                views == all.deep_view(),
                out.deep_view() == values_of_type::<T>(views.take(i as int)),
            decreases all.len() - i,
        {
            assert(views.take(i + 1).drop_last() =~= views.take(i as int));
            assert(views.take(i + 1).last() == all@[i as int].deep_view());
            if let Some(v) = T::from_attribute(all[i]) {
                let ghost before = out.deep_view();
                out.push(v);
                assert(out.deep_view() =~= before.push(v.deep_view()));
            }
            i += 1;
        }
        assert(views.take(all.len() as int) =~= views);
        out
    }

    /// The values of all attributes stored under `name`, as text, in order.
    pub fn get_unknown_vec(&self, name: &str) -> (r: Vec<Option<String>>)
        ensures
            r.deep_view() == values_named(self.deep_view(), name@).map_values(
                |a: AttributeView| a.value(),
            ),
    {
        let all = entries_all(&self.0, name);
        let ghost views = all.deep_view();
        let mut out: Vec<Option<String>> = Vec::new();
        let mut i: usize = 0;
        while i < all.len()
            invariant
                i <= all.len(),
                views == all.deep_view(),
                out.deep_view() == views.take(i as int).map_values(|a: AttributeView| a.value()),
            decreases all.len() - i,
        {
            let ghost before = out.deep_view();
            let value = all[i].to_string();
            out.push(value);
            assert(views[i as int] == all@[i as int].deep_view());
            assert(out.deep_view() =~= before.push(views[i as int].value()));
            assert(views.take(i + 1).map_values(|a: AttributeView| a.value()) =~= views.take(
                i as int,
            ).map_values(|a: AttributeView| a.value()).push(views[i as int].value()));
            i += 1;
        }
        assert(views.take(all.len() as int) =~= views);
        out
    }

    /// All entries, in order.
    pub fn entries(&self) -> (r: Vec<(&String, &Attribute)>)
        ensures
            r.deep_view() == self.deep_view(),
    {
        entries_pairs(&self.0)
    }

    /// Writes one `a=` line for every entry, in order.
    pub fn write_to(&self, out: &mut String)
        ensures
            final(out)@ == old(out)@ + attribute_lines(self.deep_view()),
    {
        let pairs = entries_pairs(&self.0);
        let ghost views = pairs.deep_view();
        let mut i: usize = 0;
        assert(views.take(0) =~= Seq::<(Seq<char>, AttributeView)>::empty());
        while i < pairs.len()
            invariant
                i <= pairs.len(),
                views == pairs.deep_view(),
                out@ == old(out)@ + attribute_lines(views.take(i as int)),
            decreases pairs.len() - i,
        {
            assert(views.take(i + 1).drop_last() =~= views.take(i as int));
            assert(views.take(i + 1).last() == pairs@[i as int].deep_view());
            let ghost before = out@;
            push_str(out, "a=");
            push_str(out, pairs[i].0.as_str());
            if let Some(v) = pairs[i].1.to_string() {
                out.push(':');
                push_str(out, v.as_str());
            }
            push_str(out, "\r\n");
            assert(out@ =~= before + attribute_line(views[i as int].0, views[i as int].1));
            assert(out@ =~= old(out)@ + attribute_lines(views.take(i + 1)));
            i += 1;
        }
        assert(views.take(pairs.len() as int) =~= views);
    }

    pub fn to_string(&self) -> (r: String)
        ensures
            r@ == attribute_lines(self.deep_view()),
    {
        let mut out = String::new();
        self.write_to(&mut out);
        out
    }
}

} // verus!
