//! Turns typed values into the write shape of their property's declared
//! type, collecting the writes of one record update.
use vstd::prelude::*;
use crate::assoc::{last_value, lemma_last_value_none, lemma_last_value_at, lemma_last_value_update};
use crate::schema::{PropertySchema, PropertyType, TypeView};
use crate::text::{chars_of, chars_eq, string_of, decimal_chars, decimal, join_strings, join, views};

verus! {

/// A value to be written to a property.
#[derive(Clone, Debug)]
pub enum ValueInput {
    Text(String),
    StringList(Vec<String>),
    Number(i64),
    Url(String),
    Date(String),
}

pub enum ValueView {
    Text(Seq<char>),
    StringList(Seq<Seq<char>>),
    Number(int),
    Url(Seq<char>),
    Date(Seq<char>),
}

impl View for ValueInput {
    type V = ValueView;

    open spec fn view(&self) -> ValueView {
        match self {
            ValueInput::Text(s) => ValueView::Text(s@),
            ValueInput::StringList(l) => ValueView::StringList(views(l@)),
            ValueInput::Number(n) => ValueView::Number(*n as int),
            ValueInput::Url(s) => ValueView::Url(s@),
            ValueInput::Date(s) => ValueView::Date(s@),
        }
    }
}

/// One property write, in the shape of the property's type.
#[derive(Clone, Debug)]
pub enum PropertyWrite {
    Title(String),
    RichText(String),
    Url(String),
    Number(i64),
    Select(String),
    MultiSelect(Vec<String>),
    /// An external file at the given address.
    Files(String),
    /// A date whose start is the given text.
    Date(String),
}

pub enum WriteView {
    Title(Seq<char>),
    RichText(Seq<char>),
    Url(Seq<char>),
    Number(int),
    Select(Seq<char>),
    MultiSelect(Seq<Seq<char>>),
    Files(Seq<char>),
    Date(Seq<char>),
}

impl View for PropertyWrite {
    type V = WriteView;

    open spec fn view(&self) -> WriteView {
        match self {
            PropertyWrite::Title(s) => WriteView::Title(s@),
            PropertyWrite::RichText(s) => WriteView::RichText(s@),
            PropertyWrite::Url(s) => WriteView::Url(s@),
            PropertyWrite::Number(n) => WriteView::Number(*n as int),
            PropertyWrite::Select(s) => WriteView::Select(s@),
            PropertyWrite::MultiSelect(l) => WriteView::MultiSelect(views(l@)),
            PropertyWrite::Files(s) => WriteView::Files(s@),
            PropertyWrite::Date(s) => WriteView::Date(s@),
        }
    }
}

pub open spec fn list_sep() -> Seq<char> {
    seq![',', ' ']
}

/// A value as text: a list joined with `, `, a number in decimal.
pub open spec fn text_of(v: ValueView) -> Seq<char> {
    match v {
        ValueView::Text(s) => s,
        ValueView::StringList(l) => join(l, list_sep()),
        ValueView::Number(n) => decimal(n),
        ValueView::Url(s) => s,
        ValueView::Date(s) => s,
    }
}

/// A value as one piece of text, if it has one: a list gives its first item,
/// a number none.
pub open spec fn first_text_of(v: ValueView) -> Option<Seq<char>> {
    match v {
        ValueView::Text(s) => Some(s),
        ValueView::StringList(l) => if l.len() > 0 {
            Some(l[0])
        } else {
            None
        },
        ValueView::Number(n) => None,
        ValueView::Url(s) => Some(s),
        ValueView::Date(s) => Some(s),
    }
}

/// The write of `v` to a property of type `t`; none where the value has no
/// form that the type takes.
pub open spec fn encode_spec(t: TypeView, v: ValueView) -> Option<WriteView> {
    match t {
        TypeView::Title => Some(WriteView::Title(text_of(v))),
        TypeView::RichText => Some(WriteView::RichText(text_of(v))),
        TypeView::Unknown(_) => Some(WriteView::RichText(text_of(v))),
        TypeView::Url => match first_text_of(v) {
            Some(s) => Some(WriteView::Url(s)),
            None => None,
        },
        TypeView::Number => match v {
            ValueView::Number(n) => Some(WriteView::Number(n)),
            _ => None,
        },
        TypeView::Select => match first_text_of(v) {
            Some(s) => Some(WriteView::Select(s)),
            None => None,
        },
        TypeView::MultiSelect => match v {
            ValueView::StringList(l) => Some(WriteView::MultiSelect(l)),
            _ => Some(WriteView::MultiSelect(seq![text_of(v)])),
        },
        TypeView::Files => match first_text_of(v) {
            Some(s) => Some(WriteView::Files(s)),
            None => None,
        },
        TypeView::Date => match first_text_of(v) {
            Some(s) => Some(WriteView::Date(s)),
            None => None,
        },
    }
}

fn string_value(v: &ValueInput) -> (r: String)
    ensures
        r@ == text_of(v@),
{
    match v {
        ValueInput::Text(s) => s.clone(),
        ValueInput::StringList(l) => {
            let sep: Vec<char> = vec![',', ' '];
            let sep_text = string_of(sep.as_slice());
            assert(sep@ =~= list_sep());
            let j = join_strings(l, sep_text.as_str());
            string_of(j.as_slice())
        },
        ValueInput::Number(n) => {
            let d = decimal_chars(*n);
            string_of(d.as_slice())
        },
        ValueInput::Url(s) => s.clone(),
        ValueInput::Date(s) => s.clone(),
    }
}

fn string_value_opt(v: &ValueInput) -> (r: Option<String>)
    ensures
        match r {
            Some(s) => first_text_of(v@) == Some(s@),
            None => first_text_of(v@) is None,
        },
{
    match v {
        ValueInput::Text(s) => Some(s.clone()),
        ValueInput::StringList(l) => if l.len() > 0 {
            Some(l[0].clone())
        } else {
            None
        },
        ValueInput::Number(_) => None,
        ValueInput::Url(s) => Some(s.clone()),
        ValueInput::Date(s) => Some(s.clone()),
    }
}

/// The write of `v` to a property of type `t`.
pub fn encode(t: &PropertyType, v: &ValueInput) -> (r: Option<PropertyWrite>)
    ensures
        match r {
            Some(w) => encode_spec(t@, v@) == Some(w@),
            None => encode_spec(t@, v@) is None,
        },
{
    match t {
        PropertyType::Title => Some(PropertyWrite::Title(string_value(v))),
        PropertyType::RichText => Some(PropertyWrite::RichText(string_value(v))),
        PropertyType::Unknown(_) => Some(PropertyWrite::RichText(string_value(v))),
        PropertyType::Url => match string_value_opt(v) {
            Some(s) => Some(PropertyWrite::Url(s)),
            None => None,
        },
        PropertyType::Number => match v {
            ValueInput::Number(n) => Some(PropertyWrite::Number(*n)),
            _ => None,
        },
        PropertyType::Select => match string_value_opt(v) {
            Some(s) => Some(PropertyWrite::Select(s)),
            None => None,
        },
        PropertyType::MultiSelect => match v {
            ValueInput::StringList(l) => {
                let mut out: Vec<String> = Vec::new();
                let mut i: usize = 0;
                while i < l.len()
                    invariant
                        i <= l@.len(),
                        views(out@) == views(l@).take(i as int),
                    decreases l@.len() - i,
                {
                    let c = l[i].clone();
                    assert(c@ == l@[i as int]@);
                    let ghost o0 = out@;
                    out.push(c);
                    assert(views(out@) =~= views(o0).push(l@[i as int]@));
                    i = i + 1;
                    assert(views(out@) =~= views(l@).take(i as int));
                }
                assert(views(l@).take(l@.len() as int) =~= views(l@));
                Some(PropertyWrite::MultiSelect(out))
            },
            _ => {
                let s = string_value(v);
                let out: Vec<String> = vec![s];
                assert(views(out@) =~= seq![text_of(v@)]);
                Some(PropertyWrite::MultiSelect(out))
            },
        },
        PropertyType::Files => match string_value_opt(v) {
            Some(s) => Some(PropertyWrite::Files(s)),
            None => None,
        },
        PropertyType::Date => match string_value_opt(v) {
            Some(s) => Some(PropertyWrite::Date(s)),
            None => None,
        },
    }
}

/// The property writes of one record update; a later write to a name
/// replaces an earlier one.
#[derive(Clone, Debug)]
pub struct Update {
    pub entries: Vec<(String, PropertyWrite)>,
}

impl View for Update {
    type V = Seq<(Seq<char>, WriteView)>;

    open spec fn view(&self) -> Seq<(Seq<char>, WriteView)> {
        self.entries@.map_values(|e: (String, PropertyWrite)| (e.0@, e.1@))
    }
}

impl Update {
    pub open spec fn write_of(&self, name: Seq<char>) -> Option<WriteView> {
        last_value(self@, name)
    }

    pub fn new() -> (r: Update)
        ensures
            r@ == Seq::<(Seq<char>, WriteView)>::empty(),
    {
        Update { entries: Vec::new() }
    }

    /// Sets the write for `name`, replacing any earlier one.
    pub fn put(&mut self, name: &str, w: PropertyWrite)
        ensures
            final(self).write_of(name@) == Some(w@),
            forall|other: Seq<char>|
                other != name@ ==> #[trigger] final(self).write_of(other) == old(self).write_of(other),
    {
        let key = chars_of(name);
        let mut i: usize = self.entries.len();
        while i > 0
            invariant
                i <= self.entries@.len(),
                *self == *old(self),
                key@ == name@,
                forall|j: int| i <= j < self@.len() ==> #[trigger] self@[j].0 != name@,
            decreases i,
        {
            let k = chars_of(self.entries[i - 1].0.as_str());
            if chars_eq(k.as_slice(), key.as_slice()) {
                let ghost before = self@;
                self.entries.set(i - 1, (string_of(key.as_slice()), w));
                proof {
                    assert(self@ =~= before.update(i - 1, (name@, w@)));
                    lemma_last_value_at(self@, i - 1, name@);
                    assert forall|other: Seq<char>| other != name@ implies #[trigger] last_value(self@, other)
                        == last_value(before, other) by {
                        lemma_last_value_update(before, i - 1, (name@, w@), other);
                    }
                }
                return;
            }
            i = i - 1;
        }
        let ghost before = self@;
        proof {
            lemma_last_value_none(before, name@);
        }
        self.entries.push((string_of(key.as_slice()), w));
        assert(self@.drop_last() =~= before);
    }
}

/// Where the schema does not know a property, a value is written as rich text.
pub open spec fn declared_or(schema: crate::schema::SchemaView, name: Seq<char>, default: TypeView) -> TypeView {
    match schema.type_of(name) {
        Some(t) => t,
        None => default,
    }
}

/// Adds the write of `value` to `property`, in the shape of its declared
/// type (rich text when the schema does not know it). An absent value, or
/// one the type cannot take, leaves the update as it is.
pub fn set_value(target: &mut Update, property: &str, value: Option<ValueInput>, schema: &PropertySchema)
    ensures
        forall|other: Seq<char>|
            other != property@ ==> #[trigger] final(target).write_of(other) == old(target).write_of(other),
        final(target).write_of(property@) == match value {
            None => old(target).write_of(property@),
            Some(v) => match encode_spec(declared_or(schema@, property@, TypeView::RichText), v@) {
                None => old(target).write_of(property@),
                Some(w) => Some(w),
            },
        },
{
    let v = match value {
        None => return,
        Some(v) => v,
    };
    let t = match schema.position(property) {
        Some(i) => encode(&schema.types[i].1, &v),
        None => encode(&PropertyType::RichText, &v),
    };
    match t {
        Some(w) => target.put(property, w),
        None => {},
    }
}

/// Writes `value` to the title property: as a title if the schema declares
/// it a title, else (declared otherwise, or not known) as rich text.
pub fn set_title(target: &mut Update, property: &str, value: &str, schema: &PropertySchema)
    ensures
        forall|other: Seq<char>|
            other != property@ ==> #[trigger] final(target).write_of(other) == old(target).write_of(other),
        final(target).write_of(property@) == Some(
            if declared_or(schema@, property@, TypeView::RichText) == TypeView::Title {
                WriteView::Title(value@)
            } else {
                WriteView::RichText(value@)
            },
        ),
{
    let is_title = match schema.position(property) {
        Some(i) => match schema.types[i].1 {
            PropertyType::Title => true,
            _ => false,
        },
        None => false,
    };
    let text = string_of(chars_of(value).as_slice());
    if is_title {
        target.put(property, PropertyWrite::Title(text));
    } else {
        target.put(property, PropertyWrite::RichText(text));
    }
}

} // verus!
