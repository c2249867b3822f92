//! The knowledge base's property schema and the encoder that turns a value
//! into the write shape its property's declared type expects.
use vstd::prelude::*;
use crate::text::{chars_of, chars_eq, string_of};

verus! {

/// The declared type of a property.
#[derive(Clone, Debug)]
pub enum PropertyType {
    Title,
    RichText,
    Url,
    Number,
    Select,
    MultiSelect,
    Files,
    Date,
    Unknown(String),
}

/// A property type as a value of the specification.
pub enum TypeView {
    Title,
    RichText,
    Url,
    Number,
    Select,
    MultiSelect,
    Files,
    Date,
    Unknown(Seq<char>),
}

impl View for PropertyType {
    type V = TypeView;

    open spec fn view(&self) -> TypeView {
        match self {
            PropertyType::Title => TypeView::Title,
            PropertyType::RichText => TypeView::RichText,
            PropertyType::Url => TypeView::Url,
            PropertyType::Number => TypeView::Number,
            PropertyType::Select => TypeView::Select,
            PropertyType::MultiSelect => TypeView::MultiSelect,
            PropertyType::Files => TypeView::Files,
            PropertyType::Date => TypeView::Date,
            PropertyType::Unknown(s) => TypeView::Unknown(s@),
        }
    }
}

/// The type a type name reported by the knowledge base stands for.
pub open spec fn classify_spec(t: Seq<char>) -> TypeView {
    if t == seq!['t', 'i', 't', 'l', 'e'] {
        TypeView::Title
    } else if t == seq!['r', 'i', 'c', 'h', '_', 't', 'e', 'x', 't'] {
        TypeView::RichText
    } else if t == seq!['u', 'r', 'l'] {
        TypeView::Url
    } else if t == seq!['n', 'u', 'm', 'b', 'e', 'r'] {
        TypeView::Number
    } else if t == seq!['s', 'e', 'l', 'e', 'c', 't'] {
        TypeView::Select
    } else if t == seq!['m', 'u', 'l', 't', 'i', '_', 's', 'e', 'l', 'e', 'c', 't'] {
        TypeView::MultiSelect
    } else if t == seq!['f', 'i', 'l', 'e', 's'] {
        TypeView::Files
    } else if t == seq!['d', 'a', 't', 'e'] {
        TypeView::Date
    } else {
        TypeView::Unknown(t)
    }
}

fn is_word(cs: &Vec<char>, w: Vec<char>) -> (r: bool)
    ensures
        r == (cs@ == w@),
{
    chars_eq(cs.as_slice(), w.as_slice())
}

/// The type named `t`.
pub fn classify(t: &str) -> (r: PropertyType)
    ensures
        r@ == classify_spec(t@),
{
    let cs = chars_of(t);
    let ghost v = t@;
    if is_word(&cs, vec!['t', 'i', 't', 'l', 'e']) {
        assert(v =~= seq!['t', 'i', 't', 'l', 'e']);
        PropertyType::Title
    } else if is_word(&cs, vec!['r', 'i', 'c', 'h', '_', 't', 'e', 'x', 't']) {
        assert(v =~= seq!['r', 'i', 'c', 'h', '_', 't', 'e', 'x', 't']);
        PropertyType::RichText
    } else if is_word(&cs, vec!['u', 'r', 'l']) {
        assert(v =~= seq!['u', 'r', 'l']);
        PropertyType::Url
    } else if is_word(&cs, vec!['n', 'u', 'm', 'b', 'e', 'r']) {
        assert(v =~= seq!['n', 'u', 'm', 'b', 'e', 'r']);
        PropertyType::Number
    } else if is_word(&cs, vec!['s', 'e', 'l', 'e', 'c', 't']) {
        assert(v =~= seq!['s', 'e', 'l', 'e', 'c', 't']);
        PropertyType::Select
    } else if is_word(&cs, vec!['m', 'u', 'l', 't', 'i', '_', 's', 'e', 'l', 'e', 'c', 't']) {
        assert(v =~= seq!['m', 'u', 'l', 't', 'i', '_', 's', 'e', 'l', 'e', 'c', 't']);
        PropertyType::MultiSelect
    } else if is_word(&cs, vec!['f', 'i', 'l', 'e', 's']) {
        assert(v =~= seq!['f', 'i', 'l', 'e', 's']);
        PropertyType::Files
    } else if is_word(&cs, vec!['d', 'a', 't', 'e']) {
        assert(v =~= seq!['d', 'a', 't', 'e']);
        PropertyType::Date
    } else {
        proof {
            assert(v != seq!['t', 'i', 't', 'l', 'e']);
        }
        PropertyType::Unknown(string_of(cs.as_slice()))
    }
}

/// Property names with their declared types, and the name of the title
/// property if one is known.
#[derive(Clone, Debug)]
pub struct PropertySchema {
    pub types: Vec<(String, PropertyType)>,
    pub title_property: Option<String>,
}

/// A schema as a value of the specification.
pub struct SchemaView {
    pub types: Seq<(Seq<char>, TypeView)>,
    pub title_property: Option<Seq<char>>,
}

pub open spec fn type_in(types: Seq<(Seq<char>, TypeView)>, name: Seq<char>) -> Option<TypeView> {
    crate::assoc::last_value(types, name)
}

impl View for PropertySchema {
    type V = SchemaView;

    open spec fn view(&self) -> SchemaView {
        SchemaView {
            types: self.types@.map_values(|e: (String, PropertyType)| (e.0@, e.1@)),
            title_property: match self.title_property {
                Some(t) => Some(t@),
                None => None,
            },
        }
    }
}

impl SchemaView {
    pub open spec fn type_of(self, name: Seq<char>) -> Option<TypeView> {
        type_in(self.types, name)
    }

    /// The schema after observing a property `name` whose reported type is
    /// `t` (`None` when the property reports none): a name already known
    /// keeps its type; the first title-typed name becomes the title property.
    pub open spec fn observe(self, name: Seq<char>, t: Option<Seq<char>>) -> SchemaView {
        if self.type_of(name) is Some || t is None {
            self
        } else {
            let mapped = classify_spec(t->0);
            SchemaView {
                types: self.types.push((name, mapped)),
                title_property: if mapped == TypeView::Title && self.title_property is None {
                    Some(name)
                } else {
                    self.title_property
                },
            }
        }
    }

    /// The schema after observing each of `props` in order.
    pub open spec fn observe_all(self, props: Seq<(Seq<char>, Option<Seq<char>>)>) -> SchemaView
        decreases props.len(),
    {
        if props.len() == 0 {
            self
        } else {
            self.observe_all(props.drop_last()).observe(props.last().0, props.last().1)
        }
    }
}

pub open spec fn observed_view(props: Seq<(String, Option<String>)>) -> Seq<(Seq<char>, Option<Seq<char>>)> {
    props.map_values(
        |p: (String, Option<String>)|
            (
                p.0@,
                match p.1 {
                    Some(t) => Some(t@),
                    None => None,
                },
            ),
    )
}

impl PropertySchema {
    /// Position of the entry for `name`.
    pub fn position(&self, name: &str) -> (r: Option<usize>)
        ensures
            match r {
                Some(i) => i < self.types@.len() && self@.type_of(name@) == Some(self.types@[i as int].1@)
                    && self.types@[i as int].0@ == name@ && forall|j: int|
                    i < j < self.types@.len() ==> #[trigger] self@.types[j].0 != name@,
                None => self@.type_of(name@) is None,
            },
    {
        let key = chars_of(name);
        let mut i: usize = self.types.len();
        assert(self@.types.take(i as int) =~= self@.types);
        while i > 0
            invariant
                i <= self.types@.len(),
                key@ == name@,
                self@.type_of(name@) == type_in(self@.types.take(i as int), name@),
                forall|j: int| i <= j < self.types@.len() ==> #[trigger] self@.types[j].0 != name@,
            decreases i,
        {
            let ghost t = self@.types.take(i as int);
            assert(t.drop_last() =~= self@.types.take(i - 1));
            assert(t.last() == self@.types[i - 1]);
            let k = chars_of(self.types[i - 1].0.as_str());
            if chars_eq(k.as_slice(), key.as_slice()) {
                return Some(i - 1);
            }
            i = i - 1;
        }
        None
    }
}


/// Records the types of the properties observed on a live record, given
/// as name and reported type name. Names already known keep their type.
pub fn merge_schema_from_props(schema: &mut PropertySchema, props: &Vec<(String, Option<String>)>)
    ensures
        final(schema)@ == old(schema)@.observe_all(observed_view(props@)),
{
    let mut i: usize = 0;
    while i < props.len()
        invariant
            i <= props@.len(),
            schema@ == old(schema)@.observe_all(observed_view(props@).take(i as int)),
        decreases props@.len() - i,
    {
        let ghost before = schema@;
        let ghost t = observed_view(props@).take(i as int + 1);
        assert(t.drop_last() =~= observed_view(props@).take(i as int));
        let name = &props[i].0;
        let known = schema.position(name.as_str());
        match (&props[i].1, known) {
            (Some(tn), None) => {
                let mapped = classify(tn.as_str());
                let is_title = match mapped {
                    PropertyType::Title => true,
                    _ => false,
                };
                if is_title && schema.title_property.is_none() {
                    schema.title_property = Some(name.clone());
                }
                schema.types.push((name.clone(), mapped));
                assert(schema@.types =~= before.types.push((name@, classify_spec(tn@))));
            },
            _ => {},
        }
        i = i + 1;
    }
    assert(observed_view(props@).take(props@.len() as int) =~= observed_view(props@));
}

/// The type that the last typed entry for `name` in `props` reports.
pub open spec fn last_type(props: Seq<(Seq<char>, Option<Seq<char>>)>, name: Seq<char>) -> Option<TypeView>
    decreases props.len(),
{
    if props.len() == 0 {
        None
    } else if props.last().0 == name && props.last().1 is Some {
        Some(classify_spec(props.last().1->0))
    } else {
        last_type(props.drop_last(), name)
    }
}

/// The name of the last entry of `props` whose type is the title type.
pub open spec fn last_title(props: Seq<(Seq<char>, Option<Seq<char>>)>) -> Option<Seq<char>>
    decreases props.len(),
{
    if props.len() == 0 {
        None
    } else if props.last().1 is Some && classify_spec(props.last().1->0) == TypeView::Title {
        Some(props.last().0)
    } else {
        last_title(props.drop_last())
    }
}

/// The schema described by a database's property definitions, given as
/// name and type name: each name with its type, the title property the
/// title-typed one.
pub fn schema_from_properties(props: &Vec<(String, Option<String>)>) -> (r: PropertySchema)
    ensures
        forall|n: Seq<char>| #[trigger] r@.type_of(n) == last_type(observed_view(props@), n),
        r@.title_property == last_title(observed_view(props@)),
{
    let mut schema = PropertySchema { types: Vec::new(), title_property: None };
    let mut i: usize = 0;
    while i < props.len()
        invariant
            i <= props@.len(),
            forall|n: Seq<char>| #[trigger] schema@.type_of(n) == last_type(observed_view(props@).take(i as int), n),
            schema@.title_property == last_title(observed_view(props@).take(i as int)),
        decreases props@.len() - i,
    {
        let ghost t = observed_view(props@).take(i as int + 1);
        let ghost s0 = schema@;
        assert(t.drop_last() =~= observed_view(props@).take(i as int));
        assert(t.last() == observed_view(props@)[i as int]);
        match &props[i].1 {
            Some(tn) => {
                let mapped = classify(tn.as_str());
                let is_title = match mapped {
                    PropertyType::Title => true,
                    _ => false,
                };
                let name = &props[i].0;
                if is_title {
                    schema.title_property = Some(name.clone());
                }
                let ghost before = schema@.types;
                let ghost e = (name@, classify_spec(tn@));
                match schema.position(name.as_str()) {
                    Some(k) => {
                        schema.types.set(k, (name.clone(), mapped));
                        assert(schema@.types =~= before.update(k as int, e));
                        proof {
                            assert forall|j: int| k < j < schema@.types.len() implies #[trigger] schema@.types[j].0
                                != name@ by {
                                assert(schema@.types[j] == before[j]);
                            }
                            crate::assoc::lemma_last_value_at(schema@.types, k as int, name@);
                            assert forall|n: Seq<char>| #[trigger] schema@.type_of(n) == last_type(t, n) by {
                                if n != name@ {
                                    crate::assoc::lemma_last_value_update(before, k as int, e, n);
                                    assert(s0.type_of(n) == last_type(observed_view(props@).take(i as int), n));
                                }
                            }
                        }
                    },
                    None => {
                        schema.types.push((name.clone(), mapped));
                        assert(schema@.types.drop_last() =~= before);
                        assert forall|n: Seq<char>| #[trigger] schema@.type_of(n) == last_type(t, n) by {
                            if n != name@ {
                                assert(s0.type_of(n) == last_type(observed_view(props@).take(i as int), n));
                            }
                        }
                    },
                }
            },
            None => {
                assert forall|n: Seq<char>| #[trigger] schema@.type_of(n) == last_type(t, n) by {
                    assert(s0.type_of(n) == last_type(observed_view(props@).take(i as int), n));
                }
            },
        }
        i = i + 1;
    }
    assert(observed_view(props@).take(props@.len() as int) =~= observed_view(props@));
    schema
}

/// Observing properties never changes the type of a name already known:
/// the first classification of a name wins.
pub proof fn lemma_first_classification_wins(s: SchemaView, props: Seq<(Seq<char>, Option<Seq<char>>)>, name: Seq<char>)
    requires
        s.type_of(name) is Some,
    ensures
        s.observe_all(props).type_of(name) == s.type_of(name),
    decreases props.len(),
{
    if props.len() > 0 {
        lemma_first_classification_wins(s, props.drop_last(), name);
        let prev = s.observe_all(props.drop_last());
        let (n, t) = props.last();
        if !(prev.type_of(n) is Some || t is None) {
            assert(prev.observe(n, t).types.drop_last() =~= prev.types);
            assert(n != name);
        }
    }
}

/// The property names and types of the fallback schema.
pub open spec fn fallback_types() -> Seq<(Seq<char>, TypeView)> {
    seq![
        (seq!['N', 'a', 'm', 'e'], TypeView::Title),
        (seq!['E', 'n', 'g', ' ', 'N', 'a', 'm', 'e'], TypeView::RichText),
        (seq!['S', 'y', 'n', 'o', 'p', 's', 'i', 's'], TypeView::RichText),
        (seq!['G', 'e', 'n', 'r', 'e'], TypeView::MultiSelect),
        (seq!['C', 'a', 's', 't'], TypeView::RichText),
        (seq!['D', 'i', 'r', 'e', 'c', 't', 'o', 'r'], TypeView::RichText),
        (seq!['C', 'o', 'n', 't', 'e', 'n', 't', ' ', 'R', 'a', 't', 'i', 'n', 'g'], TypeView::Select),
        (seq!['C', 'o', 'u', 'n', 't', 'r', 'y', ' ', 'o', 'f', ' ', 'o', 'r', 'i', 'g', 'i', 'n'], TypeView::RichText),
        (seq!['L', 'a', 'n', 'g', 'u', 'a', 'g', 'e'], TypeView::Select),
        (seq!['R', 'e', 'l', 'e', 'a', 's', 'e', ' ', 'D', 'a', 't', 'e'], TypeView::Date),
        (seq!['Y', 'e', 'a', 'r'], TypeView::RichText),
        (seq!['R', 'u', 'n', 't', 'i', 'm', 'e'], TypeView::Number),
        (seq!['E', 'p', 'i', 's', 'o', 'd', 'e', 's'], TypeView::Number),
        (seq!['T', 'r', 'a', 'i', 'l', 'e', 'r'], TypeView::Url),
        (seq!['I', 'M', 'G'], TypeView::Files),
        (seq!['I', 'M', 'D', 'b', ' ', 'P', 'a', 'g', 'e'], TypeView::Url),
        (seq!['I', 'D'], TypeView::Number),
        (seq!['S', 'e', 'a', 's', 'o', 'n'], TypeView::Select),
        (seq!['T', 'y', 'p', 'e'], TypeView::Select),
    ]
}

/// The schema used when none could be fetched.
pub fn fallback_schema() -> (r: PropertySchema)
    ensures
        r@.types == fallback_types(),
        r@.title_property == Some(seq!['N', 'a', 'm', 'e']),
{
    let mut types: Vec<(String, PropertyType)> = Vec::new();
    types.push((string_of(&['N', 'a', 'm', 'e']), PropertyType::Title));
    types.push((string_of(&['E', 'n', 'g', ' ', 'N', 'a', 'm', 'e']), PropertyType::RichText));
    types.push((string_of(&['S', 'y', 'n', 'o', 'p', 's', 'i', 's']), PropertyType::RichText));
    types.push((string_of(&['G', 'e', 'n', 'r', 'e']), PropertyType::MultiSelect));
    types.push((string_of(&['C', 'a', 's', 't']), PropertyType::RichText));
    types.push((string_of(&['D', 'i', 'r', 'e', 'c', 't', 'o', 'r']), PropertyType::RichText));
    types.push((string_of(&['C', 'o', 'n', 't', 'e', 'n', 't', ' ', 'R', 'a', 't', 'i', 'n', 'g']), PropertyType::Select));
    types.push((string_of(&['C', 'o', 'u', 'n', 't', 'r', 'y', ' ', 'o', 'f', ' ', 'o', 'r', 'i', 'g', 'i', 'n']), PropertyType::RichText));
    types.push((string_of(&['L', 'a', 'n', 'g', 'u', 'a', 'g', 'e']), PropertyType::Select));
    types.push((string_of(&['R', 'e', 'l', 'e', 'a', 's', 'e', ' ', 'D', 'a', 't', 'e']), PropertyType::Date));
    types.push((string_of(&['Y', 'e', 'a', 'r']), PropertyType::RichText));
    types.push((string_of(&['R', 'u', 'n', 't', 'i', 'm', 'e']), PropertyType::Number));
    types.push((string_of(&['E', 'p', 'i', 's', 'o', 'd', 'e', 's']), PropertyType::Number));
    types.push((string_of(&['T', 'r', 'a', 'i', 'l', 'e', 'r']), PropertyType::Url));
    types.push((string_of(&['I', 'M', 'G']), PropertyType::Files));
    types.push((string_of(&['I', 'M', 'D', 'b', ' ', 'P', 'a', 'g', 'e']), PropertyType::Url));
    types.push((string_of(&['I', 'D']), PropertyType::Number));
    types.push((string_of(&['S', 'e', 'a', 's', 'o', 'n']), PropertyType::Select));
    types.push((string_of(&['T', 'y', 'p', 'e']), PropertyType::Select));
    let r = PropertySchema { types, title_property: Some(string_of(&['N', 'a', 'm', 'e'])) };
    assert(r@.types =~= fallback_types());
    r
}

} // verus!
