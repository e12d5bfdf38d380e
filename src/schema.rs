//! The event schema and the rules that the observed-function transform
//! follows: how a span is labelled, which labels skip the schema, and which
//! typed recorder each generic recording call becomes.
use vstd::prelude::*;
use vstd::string::*;
use crate::text::push_str;

verus! {

/// The schema entry of one label.
#[derive(Debug)]
pub struct Event {
    pub critical: bool,
    pub result_type: String,
    /// Field names and their type names.
    pub fields: Vec<(String, String)>,
}

/// Labels and their entries, a map from label to entry (see [`Schema::wf`]).
/// Lookups take the last entry of a label, which in a well-formed schema is
/// the only one.
#[derive(Debug)]
pub struct Schema {
    pub events: Vec<(String, Event)>,
}

/// A schema lookup that failed.
#[derive(Debug, Clone, PartialEq, Eq)]
pub enum SchemaError {
    /// The label has no entry.
    MissingEvent { label: String },
    /// The label's entry declares no such field.
    MissingField { field: String, label: String },
}

/// The mathematical form of a [`SchemaError`].
pub ghost enum ErrorModel {
    MissingEvent(Seq<char>),
    MissingField(Seq<char>, Seq<char>),
}

impl View for SchemaError {
    type V = ErrorModel;

    open spec fn view(&self) -> ErrorModel {
        match self {
            SchemaError::MissingEvent { label } => ErrorModel::MissingEvent(label@),
            SchemaError::MissingField { field, label } => ErrorModel::MissingField(field@, label@),
        }
    }
}

/// One call statement of an observed function's body: the called path's
/// first segment, and its first argument where that is a string literal.
#[derive(Debug)]
pub struct Call {
    pub callee: String,
    pub literal: Option<String>,
}

/// What the transform does with an observed function.
#[derive(Debug)]
pub struct Plan {
    /// The span label.
    pub label: String,
    /// The schema's critical flag of the label; false where the schema is skipped.
    pub is_critical: bool,
    /// For each call of the body, the recorder it becomes, if it is renamed;
    /// `None` where the body is left as it is.
    pub renames: Option<Vec<Option<String>>>,
}

/// The function names of the database adapters.
pub open spec fn whitelist_events() -> Seq<Seq<char>> {
    seq![
        "query_by_index"@,
        "establish"@,
        "execute"@,
        "query_by_name"@,
        "execute_returning_count"@,
    ]
}

/// The namespaces of the database adapters.
pub open spec fn whitelist_namespaces() -> Seq<Seq<char>> {
    seq!["observer__pg"@, "observer__mysql"@]
}

/// The entry of `label`: the last one given for it.
pub open spec fn event_of(events: Seq<(String, Event)>, label: Seq<char>) -> Option<Event>
    decreases events.len(),
{
    if events.len() == 0 {
        None
    } else if events.last().0@ == label {
        Some(events.last().1)
    } else {
        event_of(events.drop_last(), label)
    }
}

/// The type name declared for field `name`: the last one given for it.
pub open spec fn field_type_of(fields: Seq<(String, String)>, name: Seq<char>) -> Option<Seq<char>>
    decreases fields.len(),
{
    if fields.len() == 0 {
        None
    } else if fields.last().0@ == name {
        Some(fields.last().1@)
    } else {
        field_type_of(fields.drop_last(), name)
    }
}

/// What `str::to_lowercase` gives.
pub uninterp spec fn lower_of(s: Seq<char>) -> Seq<char>;

/// Relies on str::to_lowercase: the result depends on the characters alone.
#[verifier::external_body]
fn lowercase(s: &str) -> (r: String)
    ensures
        r@ == lower_of(s@),
{
    s.to_lowercase()
}

/// The label of a function: `namespace__name`, or the name alone.
pub open spec fn label_spec(namespace: Option<Seq<char>>, name: Seq<char>) -> Seq<char> {
    match namespace {
        Some(ns) => ns + "__"@ + name,
        None => name,
    }
}

/// The recorder a generic recording call becomes in the body of the
/// function labelled `label`, if it is renamed at all.
pub open spec fn rename_spec(
    events: Seq<(String, Event)>,
    label: Seq<char>,
    callee: Seq<char>,
    literal: Option<Seq<char>>,
) -> Result<Option<Seq<char>>, ErrorModel> {
    if callee == "observe_field"@ && literal is Some {
        match event_of(events, label) {
            None => Err(ErrorModel::MissingEvent(label)),
            Some(e) => match field_type_of(e.fields@, literal.unwrap()) {
                None => Err(ErrorModel::MissingField(literal.unwrap(), label)),
                Some(t) => Ok(Some("observe_"@ + lower_of(t))),
            },
        }
    } else if callee == "observe_result"@ {
        match event_of(events, label) {
            None => Err(ErrorModel::MissingEvent(label)),
            Some(e) => Ok(Some("observe_result_"@ + lower_of(e.result_type@))),
        }
    } else {
        Ok(None)
    }
}

/// The two results agree: both `Ok` with the same text or both `None`, or
/// both the same error.
pub open spec fn same_outcome(
    a: Result<Option<String>, SchemaError>,
    b: Result<Option<Seq<char>>, ErrorModel>,
) -> bool {
    match (a, b) {
        (Ok(x), Ok(y)) => match (x, y) {
            (Some(s), Some(t)) => s@ == t,
            (None, None) => true,
            _ => false,
        },
        (Err(e1), Err(e2)) => e1@ == e2,
        _ => false,
    }
}

/// The label of a function: `namespace__name`, or the name alone.
pub fn label_of(namespace: Option<&str>, name: &str) -> (r: String)
    ensures
        r@ == label_spec(
            match namespace {
                Some(ns) => Some(ns@),
                None => None,
            },
            name@,
        ),
{
    let mut r = String::new();
    match namespace {
        Some(ns) => {
            push_str(&mut r, ns);
            push_str(&mut r, "__");
            push_str(&mut r, name);
        },
        None => push_str(&mut r, name),
    }
    assert(r@ =~= label_spec(
        match namespace {
            Some(ns) => Some(ns@),
            None => None,
        },
        name@,
    ));
    r
}

fn str_eq(a: &str, b: &str) -> (r: bool)
    ensures
        r == (a@ == b@),
{
    let x = String::from_str(a);
    let y = String::from_str(b);
    x == y
}

/// Whether a function of this name in this namespace is a database adapter
/// entry point, which skips the schema and keeps its body.
pub fn is_whitelisted(namespace: Option<&str>, name: &str) -> (r: bool)
    ensures
        r == (namespace matches Some(ns) && whitelist_namespaces().contains(ns@)
            && whitelist_events().contains(name@)),
{
    proof {
        reveal_strlit("query_by_index");
        reveal_strlit("establish");
        reveal_strlit("execute");
        reveal_strlit("query_by_name");
        reveal_strlit("execute_returning_count");
        reveal_strlit("observer__pg");
        reveal_strlit("observer__mysql");
    }
    let ns = match namespace {
        Some(ns) => ns,
        None => {
            return false;
        },
    };
    let ns_ok = str_eq(ns, "observer__pg") || str_eq(ns, "observer__mysql");
    let name_ok = str_eq(name, "query_by_index") || str_eq(name, "establish") || str_eq(
        name,
        "execute",
    ) || str_eq(name, "query_by_name") || str_eq(name, "execute_returning_count");
    proof {
        let evs = whitelist_events();
        let nss = whitelist_namespaces();
        if name_ok {
            if name@ == "query_by_index"@ {
                assert(evs[0] == name@);
            } else if name@ == "establish"@ {
                assert(evs[1] == name@);
            } else if name@ == "execute"@ {
                assert(evs[2] == name@);
            } else if name@ == "query_by_name"@ {
                assert(evs[3] == name@);
            } else {
                assert(evs[4] == name@);
            }
        }
        if ns_ok {
            if ns@ == "observer__pg"@ {
                assert(nss[0] == ns@);
            } else {
                assert(nss[1] == ns@);
            }
        }
    }
    ns_ok && name_ok
}

impl Schema {
    /// The entry of `label`, or `MissingEvent`.
    pub fn get_event(&self, table: &str) -> (r: Result<&Event, SchemaError>)
        ensures
            event_of(self.events@, table@) matches Some(e) ==> r == Ok::<&Event, SchemaError>(&e),
            event_of(self.events@, table@) is None ==> (r matches Err(
                SchemaError::MissingEvent { label },
            ) && label@ == table@),
    {
        let mut i: usize = self.events.len();
        assert(self.events@.subrange(0, i as int) =~= self.events@);
        while i > 0
            invariant
                i <= self.events@.len(),
                event_of(self.events@, table@) == event_of(
                    self.events@.subrange(0, i as int),
                    table@,
                ),
            decreases i,
        {
            let ghost sub = self.events@.subrange(0, i as int);
            assert(sub.drop_last() =~= self.events@.subrange(0, i - 1));
            if str_eq(self.events[i - 1].0.as_str(), table) {
                return Ok(&self.events[i - 1].1);
            }
            i = i - 1;
        }
        Err(SchemaError::MissingEvent { label: String::from_str(table) })
    }

    /// The recorder suffix of field `field` of `table`: its declared type,
    /// in lower case.
    pub fn get_func(&self, field: &str, table: &str) -> (r: Result<String, SchemaError>)
        ensures
            same_outcome(
                match r {
                    Ok(s) => Ok(Some(s)),
                    Err(e) => Err(e),
                },
                match event_of(self.events@, table@) {
                    None => Err(ErrorModel::MissingEvent(table@)),
                    Some(e) => match field_type_of(e.fields@, field@) {
                        None => Err(ErrorModel::MissingField(field@, table@)),
                        Some(t) => Ok(Some(lower_of(t))),
                    },
                },
            ),
    {
        let event = match self.get_event(table) {
            Ok(e) => e,
            Err(e) => {
                return Err(e);
            },
        };
        match field_type(&event.fields, field) {
            Some(t) => Ok(get_rust_type(t)),
            None => Err(
                SchemaError::MissingField {
                    field: String::from_str(field),
                    label: String::from_str(table),
                },
            ),
        }
    }

    /// The recorder suffix of the result of `table`: its result type, in
    /// lower case.
    pub fn get_result_type(&self, table: &str) -> (r: Result<String, SchemaError>)
        ensures
            event_of(self.events@, table@) matches Some(e) ==> (r matches Ok(s) && s@ == lower_of(
                e.result_type@,
            )),
            event_of(self.events@, table@) is None ==> (r matches Err(
                SchemaError::MissingEvent { label },
            ) && label@ == table@),
    {
        match self.get_event(table) {
            Ok(e) => Ok(lowercase(e.result_type.as_str())),
            Err(e) => Err(e),
        }
    }

    /// The recorder that a generic recording call becomes in the body of the
    /// function labelled `table`: `observe_field("name", ..)` becomes
    /// `observe_<type of name>`, `observe_result(..)` becomes
    /// `observe_result_<result type>`; other calls, and `observe_field` with
    /// a first argument that is not a literal, stay as they are (`None`).
    pub fn rewrite_call(&self, table: &str, call: &Call) -> (r: Result<Option<String>, SchemaError>)
        ensures
            same_outcome(
                r,
                rename_spec(
                    self.events@,
                    table@,
                    call.callee@,
                    match call.literal {
                        Some(l) => Some(l@),
                        None => None,
                    },
                ),
            ),
    {
        proof {
            reveal_strlit("observe_field");
            reveal_strlit("observe_result");
        }
        if str_eq(call.callee.as_str(), "observe_field") {
            if let Some(lit) = &call.literal {
                return match self.get_func(lit.as_str(), table) {
                    Ok(t) => {
                        let mut name = String::from_str("observe_");
                        push_str(&mut name, t.as_str());
                        Ok(Some(name))
                    },
                    Err(e) => Err(e),
                };
            }
        }
        if str_eq(call.callee.as_str(), "observe_result") {
            return match self.get_result_type(table) {
                Ok(t) => {
                    let mut name = String::from_str("observe_result_");
                    push_str(&mut name, t.as_str());
                    Ok(Some(name))
                },
                Err(e) => Err(e),
            };
        }
        Ok(None)
    }
}

fn field_type<'a>(fields: &'a Vec<(String, String)>, name: &str) -> (r: Option<&'a String>)
    ensures
        field_type_of(fields@, name@) matches Some(t) ==> r matches Some(s) && s@ == t,
        field_type_of(fields@, name@) is None ==> r is None,
{
    let mut i: usize = fields.len();
    assert(fields@.subrange(0, i as int) =~= fields@);
    while i > 0
        invariant
            i <= fields@.len(),
            field_type_of(fields@, name@) == field_type_of(fields@.subrange(0, i as int), name@),
        decreases i,
    {
        let ghost sub = fields@.subrange(0, i as int);
        assert(sub.drop_last() =~= fields@.subrange(0, i - 1));
        if str_eq(fields[i - 1].0.as_str(), name) {
            return Some(&fields[i - 1].1);
        }
        i = i - 1;
    }
    None
}

/// A schema type name as a recorder suffix: in lower case.
pub fn get_rust_type(storage_type: &str) -> (r: String)
    ensures
        r@ == lower_of(storage_type@),
{
    lowercase(storage_type)
}


/// The literal of a call as a sequence, if any.
pub open spec fn literal_of(call: Call) -> Option<Seq<char>> {
    match call.literal {
        Some(l) => Some(l@),
        None => None,
    }
}

/// The label an observed function gets: the explicit `id` where one is given,
/// else `namespace__name` or the name alone.
pub open spec fn observed_label(
    namespace: Option<Seq<char>>,
    name: Seq<char>,
    id: Option<Seq<char>>,
) -> Seq<char> {
    match id {
        Some(i) => i,
        None => label_spec(namespace, name),
    }
}

pub open spec fn opt_view(s: Option<&str>) -> Option<Seq<char>> {
    match s {
        Some(x) => Some(x@),
        None => None,
    }
}

/// Plans the transform of an observed function named `name`, with the
/// annotation's `namespace` and `id`, whose body makes `calls`.
///
/// A database adapter entry point keeps its body and is not critical.
/// Otherwise the label must have a schema entry, which gives the critical
/// flag, and every call is renamed as [`Schema::rewrite_call`] says; the
/// plan fails exactly where one of them fails.
pub fn plan_observed(
    schema: &Schema,
    namespace: Option<&str>,
    name: &str,
    id: Option<&str>,
    calls: &Vec<Call>,
) -> (r: Result<Plan, SchemaError>)
    ensures
        ({
            let label = observed_label(opt_view(namespace), name@, opt_view(id));
            let skip = namespace matches Some(ns) && whitelist_namespaces().contains(ns@)
                && whitelist_events().contains(name@);
            &&& r matches Ok(p) ==> p.label@ == label
            &&& skip ==> (r matches Ok(p) && !p.is_critical && p.renames is None)
            &&& !skip && event_of(schema.events@, label) is None ==> (r matches Err(
                SchemaError::MissingEvent { label: l },
            ) && l@ == label)
            &&& !skip ==> (event_of(schema.events@, label) matches Some(e) ==> {
                &&& (r is Ok <==> forall|i: int|
                    0 <= i < calls@.len() ==> rename_spec(
                        schema.events@,
                        label,
                        calls@[i].callee@,
                        literal_of(calls@[i]),
                    ) is Ok)
                &&& r matches Ok(p) ==> {
                    &&& p.is_critical == e.critical
                    &&& p.renames matches Some(v) && v@.len() == calls@.len() && forall|i: int|
                        0 <= i < calls@.len() ==> same_outcome(
                            Ok(#[trigger] v@[i]),
                            rename_spec(
                                schema.events@,
                                label,
                                calls@[i].callee@,
                                literal_of(calls@[i]),
                            ),
                        )
                }
                &&& r matches Err(err) ==> exists|i: int|
                    0 <= i < calls@.len() && rename_spec(
                        schema.events@,
                        label,
                        calls@[i].callee@,
                        literal_of(#[trigger] calls@[i]),
                    ) == Err::<Option<Seq<char>>, ErrorModel>(err@)
            })
        }),
{
    let label = match id {
        Some(i) => String::from_str(i),
        None => label_of(namespace, name),
    };
    if is_whitelisted(namespace, name) {
        return Ok(Plan { label, is_critical: false, renames: None });
    }
    let critical = match schema.get_event(label.as_str()) {
        Ok(e) => e.critical,
        Err(e) => {
            return Err(e);
        },
    };
    let ghost g = label@;
    let mut renames: Vec<Option<String>> = Vec::new();
    let mut i: usize = 0;
    while i < calls.len()
        invariant
            i <= calls@.len(),
            renames@.len() == i,
            label@ == g,
            g == observed_label(opt_view(namespace), name@, opt_view(id)),
            !(namespace matches Some(ns) && whitelist_namespaces().contains(ns@)
                && whitelist_events().contains(name@)),
            event_of(schema.events@, g) is Some,
            forall|j: int|
                0 <= j < i ==> same_outcome(
                    Ok(#[trigger] renames@[j]),
                    rename_spec(schema.events@, g, calls@[j].callee@, literal_of(calls@[j])),
                ),
            forall|j: int|
                0 <= j < i ==> rename_spec(
                    schema.events@,
                    g,
                    calls@[j].callee@,
                    literal_of(calls@[j]),
                ) is Ok,
        decreases calls@.len() - i,
    {
        match schema.rewrite_call(label.as_str(), &calls[i]) {
            Ok(n) => renames.push(n),
            Err(e) => {
                proof {
                    let k = i as int;
                    let rs = rename_spec(schema.events@, g, calls@[k].callee@, literal_of(calls@[k]));
                    assert(rs is Err);
                    assert(rs == Err::<Option<Seq<char>>, ErrorModel>(e@));
                    assert(!(rs is Ok));
                    assert(!(forall|j: int|
                        0 <= j < calls@.len() ==> rename_spec(
                            schema.events@,
                            g,
                            calls@[j].callee@,
                            literal_of(calls@[j]),
                        ) is Ok)) by {
                        assert(0 <= k < calls@.len());
                    }
                }
                return Err(e);
            },
        }
        i = i + 1;
    }
    Ok(Plan { label, is_critical: critical, renames: Some(renames) })
}

/// An entry that declares no fields rejects every `observe_field` call with
/// a literal name in the body of its function.
pub proof fn lemma_fieldless_entry_rejects_fields(
    events: Seq<(String, Event)>,
    label: Seq<char>,
    field: Seq<char>,
)
    requires
        event_of(events, label) matches Some(e) && e.fields@.len() == 0,
    ensures
        rename_spec(events, label, "observe_field"@, Some(field)) == Err::<
            Option<Seq<char>>,
            ErrorModel,
        >(ErrorModel::MissingField(field, label)),
{
}

/// Where the schema declares field `field` of `label` with type `t`, a call
/// `observe_field("field", ..)` becomes a call of `observe_<t in lower case>`.
pub proof fn lemma_declared_field_rewritten(
    events: Seq<(String, Event)>,
    label: Seq<char>,
    field: Seq<char>,
    t: Seq<char>,
)
    requires
        event_of(events, label) matches Some(e) && field_type_of(e.fields@, field) == Some(t),
    ensures
        rename_spec(events, label, "observe_field"@, Some(field)) == Ok::<
            Option<Seq<char>>,
            ErrorModel,
        >(Some("observe_"@ + lower_of(t))),
{
}


impl SchemaError {
    /// The build failure text, naming the schema file at `path`.
    pub open spec fn message_spec(&self, path: Seq<char>) -> Seq<char> {
        match self {
            SchemaError::MissingEvent { label } => "No entry for \""@ + label@
                + "\" in the events file: "@ + path,
            SchemaError::MissingField { field, label } => "No field named \""@ + field@
                + "\" in the fields for the table \""@ + label@ + "\" ("@ + path + ")"@,
        }
    }

    /// The build failure text, naming the schema file at `path`.
    pub fn message(&self, path: &str) -> (r: String)
        ensures
            r@ == self.message_spec(path@),
    {
        let mut r = String::new();
        match self {
            SchemaError::MissingEvent { label } => {
                push_str(&mut r, "No entry for \"");
                push_str(&mut r, label.as_str());
                push_str(&mut r, "\" in the events file: ");
                push_str(&mut r, path);
            },
            SchemaError::MissingField { field, label } => {
                push_str(&mut r, "No field named \"");
                push_str(&mut r, field.as_str());
                push_str(&mut r, "\" in the fields for the table \"");
                push_str(&mut r, label.as_str());
                push_str(&mut r, "\" (");
                push_str(&mut r, path);
                push_str(&mut r, ")");
            },
        }
        assert(r@ =~= self.message_spec(path@));
        r
    }
}


/// No label is given twice.
pub open spec fn labels_unique(events: Seq<(String, Event)>) -> bool {
    forall|i: int, j: int| 0 <= i < j < events.len() ==> events[i].0@ != events[j].0@
}

/// No field is given twice.
pub open spec fn fields_unique(fields: Seq<(String, String)>) -> bool {
    forall|i: int, j: int| 0 <= i < j < fields.len() ==> fields[i].0@ != fields[j].0@
}

impl Schema {
    /// The schema is a map: each label once, and each field of an entry once.
    pub open spec fn wf(&self) -> bool {
        &&& labels_unique(self.events@)
        &&& forall|i: int|
            0 <= i < self.events@.len() ==> fields_unique((#[trigger] self.events@[i]).1.fields@)
    }
}

/// In a schema without repeated labels, looking up an entry's label finds
/// that entry.
pub proof fn lemma_lookup_finds_entry(events: Seq<(String, Event)>, i: int)
    requires
        labels_unique(events),
        0 <= i < events.len(),
    ensures
        event_of(events, events[i].0@) == Some(events[i].1),
    decreases events.len(),
{
    if i < events.len() - 1 {
        let rest = events.drop_last();
        assert(events.last().0@ != events[i].0@);
        assert(rest[i] == events[i]);
        assert forall|a: int, b: int| 0 <= a < b < rest.len() implies rest[a].0@ != rest[b].0@ by {
            assert(rest[a] == events[a] && rest[b] == events[b]);
        }
        lemma_lookup_finds_entry(rest, i);
    }
}

/// In an entry without repeated fields, looking up a field's name finds its
/// declared type.
pub proof fn lemma_field_lookup_finds_entry(fields: Seq<(String, String)>, i: int)
    requires
        fields_unique(fields),
        0 <= i < fields.len(),
    ensures
        field_type_of(fields, fields[i].0@) == Some(fields[i].1@),
    decreases fields.len(),
{
    if i < fields.len() - 1 {
        let rest = fields.drop_last();
        assert(fields.last().0@ != fields[i].0@);
        assert(rest[i] == fields[i]);
        assert forall|a: int, b: int| 0 <= a < b < rest.len() implies rest[a].0@ != rest[b].0@ by {
            assert(rest[a] == fields[a] && rest[b] == fields[b]);
        }
        lemma_field_lookup_finds_entry(rest, i);
    }
}

} // verus!
