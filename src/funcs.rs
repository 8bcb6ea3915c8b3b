use vstd::prelude::*;
use vstd::string::*;
use crate::payload::{json_string, json_string_of};

verus! {

/// One argument of a function: a string-typed property of its argument object.
#[derive(Clone, PartialEq, Eq, Debug)]
pub struct ArgProperty {
    pub name: String,
    pub description: Option<String>,
}

/// The schema of a function's arguments: a flat object whose properties are all strings.
#[derive(Clone, PartialEq, Eq, Debug)]
pub struct ArgsSchema {
    pub properties: Vec<ArgProperty>,
}

/// Argument types that describe themselves to the provider.
pub trait FunctionArguments {
    fn json_schema() -> ArgsSchema;
}

/// What the provider is told of a registered function.
#[derive(Clone, PartialEq, Eq, Debug)]
pub struct FunctionDeclaration {
    pub name: String,
    pub description: Option<String>,
    pub args: Option<ArgsSchema>,
}

/// The index of the first declaration named `name`.
pub open spec fn first_named(functions: Seq<FunctionDeclaration>, name: Seq<char>) -> Option<nat>
    decreases functions.len(),
{
    if functions.len() == 0 {
        None
    } else if functions[0].name@ == name {
        Some(0)
    } else {
        match first_named(functions.drop_first(), name) {
            Some(i) => Some(i + 1),
            None => None,
        }
    }
}

proof fn lemma_first_named_step(functions: Seq<FunctionDeclaration>, name: Seq<char>, i: int)
    requires
        0 <= i < functions.len(),
        forall|j: int| 0 <= j < i ==> functions[j].name@ != name,
    ensures
        first_named(functions, name) == (if functions[i].name@ == name {
            Some(i as nat)
        } else {
            match first_named(functions.subrange(i + 1, functions.len() as int), name) {
                Some(k) => Some((k + i + 1) as nat),
                None => None,
            }
        }),
    decreases i,
{
    if i > 0 {
        lemma_first_named_step(functions.drop_first(), name, i - 1);
        assert(functions.drop_first().subrange(i, functions.len() - 1) =~= functions.subrange(
            i + 1,
            functions.len() as int,
        ));
    } else {
        assert(functions.drop_first() =~= functions.subrange(1, functions.len() as int));
    }
}

/// Finds the registered function that a call names: the first one of that name.
pub fn find_function(functions: &Vec<FunctionDeclaration>, name: &String) -> (r: Option<usize>)
    ensures
        match r {
            Some(i) => first_named(functions@, name@) == Some(i as nat),
            None => first_named(functions@, name@) is None,
        },
{
    let mut i: usize = 0;
    while i < functions.len()
        invariant
            i <= functions@.len(),
            forall|j: int| 0 <= j < i ==> functions@[j].name@ != name@,
        decreases functions@.len() - i,
    {
        if functions[i].name == *name {
            proof {
                lemma_first_named_step(functions@, name@, i as int);
            }
            return Some(i);
        }
        i = i + 1;
    }
    proof {
        lemma_first_named_none(functions@, name@);
    }
    None
}

proof fn lemma_first_named_none(functions: Seq<FunctionDeclaration>, name: Seq<char>)
    requires
        forall|j: int| 0 <= j < functions.len() ==> functions[j].name@ != name,
    ensures
        first_named(functions, name) is None,
    decreases functions.len(),
{
    if functions.len() > 0 {
        lemma_first_named_none(functions.drop_first(), name);
    }
}

/// Whether a path has the separator `::` at index `i`.
pub open spec fn separator_at(path: Seq<char>, i: int) -> bool {
    0 <= i && i + 1 < path.len() && path[i] == ':' && path[i + 1] == ':'
}

/// Where the last segment of a path begins, scanning from `i` for separators
/// from left to right, as `str::split` finds them, with `start` the beginning
/// of the segment under the scan.
pub open spec fn segment_start(path: Seq<char>, i: int, start: int) -> int
    decreases path.len() - i,
{
    if i < 0 || i + 1 >= path.len() {
        start
    } else if separator_at(path, i) {
        segment_start(path, i + 2, i + 2)
    } else {
        segment_start(path, i + 1, start)
    }
}

/// The last `::`-separated segment of a path.
pub open spec fn last_segment(path: Seq<char>) -> Seq<char> {
    path.subrange(segment_start(path, 0, 0), path.len() as int)
}

proof fn lemma_segment_start_bounds(path: Seq<char>, i: int, start: int)
    requires
        0 <= start <= path.len(),
        0 <= i,
        start <= i || i + 1 >= path.len(),
    ensures
        0 <= segment_start(path, i, start) <= path.len(),
    decreases path.len() - i,
{
    if i + 1 < path.len() {
        if separator_at(path, i) {
            lemma_segment_start_bounds(path, i + 2, i + 2);
        } else {
            lemma_segment_start_bounds(path, i + 1, start);
        }
    }
}

/// The name a function gets when none is given: the last `::`-separated
/// segment of the full path of its handler's type.
pub fn default_function_name(path: &str) -> (r: String)
    ensures
        r@ == last_segment(path@),
{
    let len = path.unicode_len();
    let mut i: usize = 0;
    let mut start: usize = 0;
    while len > 0 && i < len - 1
        invariant
            len == path@.len(),
            start <= i <= len,
            segment_start(path@, i as int, start as int) == segment_start(path@, 0, 0),
        decreases len - i,
    {
        if path.get_char(i) == ':' && path.get_char(i + 1) == ':' {
            i = i + 2;
            start = i;
        } else {
            i = i + 1;
        }
    }
    proof {
        lemma_segment_start_bounds(path@, 0, 0);
    }
    assert(start <= len);
    let tail = path.substring_char(start, len);
    tail.to_string()
}

/// The JSON text of one property of an argument schema: a string-typed
/// field, with its description when there is one.
pub open spec fn property_text(property: ArgProperty) -> Seq<char> {
    let description = match property.description {
        Some(d) => ",\"description\":"@ + json_string_of(d@),
        None => Seq::empty(),
    };
    json_string_of(property.name@) + ":{\"type\":\"string\""@ + description + "}"@
}

/// The JSON text of the properties of an argument schema, joined by commas.
pub open spec fn properties_text(properties: Seq<ArgProperty>) -> Seq<char>
    decreases properties.len(),
{
    if properties.len() == 0 {
        Seq::empty()
    } else if properties.len() == 1 {
        property_text(properties[0])
    } else {
        properties_text(properties.drop_last()) + ","@ + property_text(properties.last())
    }
}

/// The JSON text of an argument schema: an object whose properties are strings.
pub open spec fn schema_text(properties: Seq<ArgProperty>) -> Seq<char> {
    "{\"type\":\"object\",\"properties\":{"@ + properties_text(properties) + "}}"@
}

impl ArgProperty {
    /// The JSON text of this property.
    pub fn to_json(&self) -> (r: String)
        ensures
            r@ == property_text(*self),
    {
        let mut r = json_string(self.name.as_str());
        r.append(":{\"type\":\"string\"");
        match &self.description {
            Some(d) => {
                r.append(",\"description\":");
                let quoted = json_string(d.as_str());
                r.append(quoted.as_str());
            },
            None => {},
        }
        r.append("}");
        r
    }
}

impl ArgsSchema {
    /// The JSON schema of the arguments: an object schema whose properties
    /// are all of type string, each with its description when it has one.
    pub fn to_json(&self) -> (r: String)
        ensures
            r@ == schema_text(self.properties@),
    {
        let mut body = String::new();
        let mut i: usize = 0;
        while i < self.properties.len()
            invariant
                i <= self.properties@.len(),
                body@ == properties_text(self.properties@.subrange(0, i as int)),
            decreases self.properties@.len() - i,
        {
            let ghost done = self.properties@.subrange(0, i as int);
            let ghost next = self.properties@.subrange(0, i + 1);
            assert(next.drop_last() =~= done);
            if i > 0 {
                body.append(",");
            }
            let item = self.properties[i].to_json();
            body.append(item.as_str());
            i = i + 1;
        }
        assert(self.properties@.subrange(0, self.properties@.len() as int) =~= self.properties@);
        let mut r = String::from_str("{\"type\":\"object\",\"properties\":{");
        r.append(body.as_str());
        r.append("}}");
        r
    }
}

} // verus!
