//! Tool definitions of chat threads: their validation against the accepted
//! JSON schema keywords, and the tool set that overrides leave.
use vstd::prelude::*;

use crate::error::{invalid_request, plain_error, GatewayError, GatewayErrorKind};
use crate::json::{json_object_keys, json_object_keys_of, JsonText};
use crate::text::{is_blank, is_blank_seq, str_eq};

verus! {

/// A tool definition available to backends during chat turns.
#[derive(Debug, PartialEq, Eq)]
pub struct ChatToolDefinition {
    pub name: String,
    pub description: Option<String>,
    pub input_schema: JsonText,
}

impl ChatToolDefinition {
    pub fn duplicate(&self) -> (r: ChatToolDefinition)
        ensures
            r == *self,
    {
        ChatToolDefinition {
            name: self.name.clone(),
            description: match &self.description {
                Some(d) => Some(d.clone()),
                None => None,
            },
            input_schema: self.input_schema.duplicate(),
        }
    }
}

/// How a tool set is changed for a thread or a turn.
#[derive(Debug)]
pub enum ToolOverride {
    /// Adds a tool or replaces the one of the same name.
    SetTool(ChatToolDefinition),
    /// Removes the tools of a name.
    Remove(String),
}

/// The JSON schema keywords a tool's input schema may use.
pub open spec fn is_schema_keyword(k: Seq<char>) -> bool {
    ||| k == "$defs"@
    ||| k == "additionalProperties"@
    ||| k == "allOf"@
    ||| k == "anyOf"@
    ||| k == "default"@
    ||| k == "description"@
    ||| k == "enum"@
    ||| k == "format"@
    ||| k == "items"@
    ||| k == "maxItems"@
    ||| k == "maxLength"@
    ||| k == "maximum"@
    ||| k == "minItems"@
    ||| k == "minLength"@
    ||| k == "minimum"@
    ||| k == "nullable"@
    ||| k == "oneOf"@
    ||| k == "pattern"@
    ||| k == "properties"@
    ||| k == "required"@
    ||| k == "title"@
    ||| k == "type"@
}

/// Whether `k` is an accepted schema keyword.
pub fn schema_keyword_allowed(k: &str) -> (r: bool)
    ensures
        r == is_schema_keyword(k@),
{
    str_eq(k, "$defs") || str_eq(k, "additionalProperties") || str_eq(k, "allOf") || str_eq(
        k,
        "anyOf",
    ) || str_eq(k, "default") || str_eq(k, "description") || str_eq(k, "enum") || str_eq(
        k,
        "format",
    ) || str_eq(k, "items") || str_eq(k, "maxItems") || str_eq(k, "maxLength") || str_eq(
        k,
        "maximum",
    ) || str_eq(k, "minItems") || str_eq(k, "minLength") || str_eq(k, "minimum") || str_eq(
        k,
        "nullable",
    ) || str_eq(k, "oneOf") || str_eq(k, "pattern") || str_eq(k, "properties") || str_eq(
        k,
        "required",
    ) || str_eq(k, "title") || str_eq(k, "type")
}

/// The first key of `keys` that is not an accepted keyword.
pub open spec fn first_unsupported(keys: Seq<Seq<char>>) -> Option<Seq<char>>
    decreases keys.len(),
{
    if keys.len() == 0 {
        None
    } else {
        match first_unsupported(keys.drop_last()) {
            Some(k) => Some(k),
            None => if is_schema_keyword(keys.last()) {
                None
            } else {
                Some(keys.last())
            },
        }
    }
}

proof fn lemma_first_unsupported_prefix(keys: Seq<Seq<char>>, k: int)
    requires
        0 <= k <= keys.len(),
        first_unsupported(keys.take(k)) is Some,
    ensures
        first_unsupported(keys) == first_unsupported(keys.take(k)),
    decreases keys.len(),
{
    if k == keys.len() {
        assert(keys.take(k) =~= keys);
    } else {
        assert(keys.drop_last().take(k) =~= keys.take(k));
        lemma_first_unsupported_prefix(keys.drop_last(), k);
    }
}

pub open spec fn not_object_message(name: Seq<char>) -> Seq<char> {
    "tool '"@ + name + "' input_schema must be a JSON object"@
}

pub open spec fn unsupported_keyword_message(name: Seq<char>, key: Seq<char>) -> Seq<char> {
    "tool '"@ + name + "' input_schema contains unsupported keyword '"@ + key + "'"@
}

/// The error that checking a tool's schema gives, if any.
pub open spec fn schema_error(name: Seq<char>, schema: Seq<char>) -> Option<Seq<char>> {
    match json_object_keys_of(schema) {
        None => Some(not_object_message(name)),
        Some(keys) => match first_unsupported(keys) {
            Some(k) => Some(unsupported_keyword_message(name, k)),
            None => None,
        },
    }
}

/// What checking the keywords of a tool's schema gives: the schema must
/// be a JSON object whose keys, in the order of `serde_json`'s map, are all
/// accepted keywords.
pub open spec fn schema_check(name: Seq<char>, schema: Seq<char>, r: Result<(), GatewayError>) -> bool {
    match json_object_keys_of(schema) {
        None => r matches Err(e) && plain_error(
            e,
            GatewayErrorKind::InvalidRequest,
            not_object_message(name),
        ),
        Some(keys) => match first_unsupported(keys) {
            Some(k) => r matches Err(e) && plain_error(
                e,
                GatewayErrorKind::InvalidRequest,
                unsupported_keyword_message(name, k),
            ),
            None => r is Ok,
        },
    }
}

/// Checks that `schema` is a JSON object using accepted keywords only.
pub fn check_schema_keywords(name: &str, schema: &JsonText) -> (r: Result<(), GatewayError>)
    ensures
        schema_check(name@, schema.text@, r),
{
    let keys = match json_object_keys(schema.text.as_str()) {
        None => {
            let mut m = String::from_str("tool '");
            m.append(name);
            m.append("' input_schema must be a JSON object");
            assert(m@ == not_object_message(name@));
            return Err(invalid_request(m.as_str()));
        },
        Some(keys) => keys,
    };
    let ghost ks = keys@.map_values(|k: String| k@);
    assert(json_object_keys_of(schema.text@) == Some(ks));
    let mut i: usize = 0;
    while i < keys.len()
        invariant
            i <= keys@.len(),
            ks == keys@.map_values(|k: String| k@),
            json_object_keys_of(schema.text@) == Some(ks),
            first_unsupported(ks.take(i as int)) is None,
        decreases keys@.len() - i,
    {
        let ghost p = ks.take(i + 1);
        assert(p.drop_last() =~= ks.take(i as int));
        assert(p.last() == keys@[i as int]@);
        if !schema_keyword_allowed(keys[i].as_str()) {
            proof {
                assert(first_unsupported(p) == Some(keys@[i as int]@));
                lemma_first_unsupported_prefix(ks, i + 1);
            }
            let mut m = String::from_str("tool '");
            m.append(name);
            m.append("' input_schema contains unsupported keyword '");
            m.append(keys[i].as_str());
            m.append("'");
            return Err(invalid_request(m.as_str()));
        }
        i = i + 1;
    }
    assert(ks.take(ks.len() as int) =~= ks);
    Ok(())
}

/// Checks a tool definition: its name may not be blank and its schema must
/// pass the keyword check.
pub fn validate_tool(tool: &ChatToolDefinition) -> (r: Result<(), GatewayError>)
    ensures
        if is_blank_seq(tool.name@) {
            r matches Err(e) && plain_error(
                e,
                GatewayErrorKind::InvalidRequest,
                "tool name must not be empty"@,
            )
        } else {
            schema_check(tool.name@, tool.input_schema.text@, r)
        },
{
    if is_blank(tool.name.as_str()) {
        return Err(invalid_request("tool name must not be empty"));
    }
    check_schema_keywords(tool.name.as_str(), &tool.input_schema)
}

/// The position of the first tool named `name`.
pub open spec fn first_named(tools: Seq<ChatToolDefinition>, name: Seq<char>) -> Option<int>
    decreases tools.len(),
{
    if tools.len() == 0 {
        None
    } else {
        match first_named(tools.drop_last(), name) {
            Some(i) => Some(i),
            None => if tools.last().name@ == name {
                Some(tools.len() - 1)
            } else {
                None
            },
        }
    }
}

/// `tools` without those named `name`.
pub open spec fn without_named(tools: Seq<ChatToolDefinition>, name: Seq<char>) -> Seq<ChatToolDefinition>
    decreases tools.len(),
{
    if tools.len() == 0 {
        Seq::empty()
    } else if tools.last().name@ == name {
        without_named(tools.drop_last(), name)
    } else {
        without_named(tools.drop_last(), name).push(tools.last())
    }
}

/// The tool set after one override.
pub open spec fn apply_override(tools: Seq<ChatToolDefinition>, ov: ToolOverride) -> Seq<ChatToolDefinition> {
    match ov {
        ToolOverride::SetTool(def) => match first_named(tools, def.name@) {
            Some(i) => tools.update(i, def),
            None => tools.push(def),
        },
        ToolOverride::Remove(name) => without_named(tools, name@),
    }
}

/// The tool set after the overrides, in order.
pub open spec fn resolved_tools(base: Seq<ChatToolDefinition>, overrides: Seq<ToolOverride>) -> Seq<
    ChatToolDefinition,
>
    decreases overrides.len(),
{
    if overrides.len() == 0 {
        base
    } else {
        apply_override(resolved_tools(base, overrides.drop_last()), overrides.last())
    }
}

proof fn lemma_first_named_facts(tools: Seq<ChatToolDefinition>, name: Seq<char>)
    ensures
        match first_named(tools, name) {
            Some(i) => 0 <= i < tools.len() && tools[i].name@ == name && forall|j: int|
                0 <= j < i ==> (#[trigger] tools[j]).name@ != name,
            None => forall|j: int| 0 <= j < tools.len() ==> (#[trigger] tools[j]).name@ != name,
        },
    decreases tools.len(),
{
    if tools.len() > 0 {
        lemma_first_named_facts(tools.drop_last(), name);
        match first_named(tools.drop_last(), name) {
            Some(i) => {
                assert forall|j: int| 0 <= j < i implies (#[trigger] tools[j]).name@ != name by {
                    assert(tools[j] == tools.drop_last()[j]);
                }
            },
            None => {
                assert forall|j: int| 0 <= j < tools.len() - 1 implies (#[trigger] tools[j]).name@
                    != name by {
                    assert(tools[j] == tools.drop_last()[j]);
                }
            },
        }
    }
}

/// The tool set that `base` and `overrides` leave: a set replaces the
/// first tool of its name or is added at the end; a removal drops every
/// tool of its name.
pub fn resolve_tools(base: &Vec<ChatToolDefinition>, overrides: &Vec<ToolOverride>) -> (r: Vec<
    ChatToolDefinition,
>)
    ensures
        r@ == resolved_tools(base@, overrides@),
{
    let mut tools: Vec<ChatToolDefinition> = Vec::new();
    let mut i: usize = 0;
    while i < base.len()
        invariant
            i <= base@.len(),
            tools@ == base@.take(i as int),
        decreases base@.len() - i,
    {
        tools.push(base[i].duplicate());
        assert(tools@ =~= base@.take(i + 1));
        i = i + 1;
    }
    assert(base@.take(base@.len() as int) =~= base@);
    let mut o: usize = 0;
    while o < overrides.len()
        invariant
            o <= overrides@.len(),
            tools@ == resolved_tools(base@, overrides@.take(o as int)),
        decreases overrides@.len() - o,
    {
        assert(overrides@.take(o + 1).drop_last() =~= overrides@.take(o as int));
        let ghost before = tools@;
        match &overrides[o] {
            ToolOverride::SetTool(def) => {
                let mut j: usize = 0;
                let mut found = false;
                while j < tools.len() && !found
                    invariant
                        j <= tools@.len(),
                        tools@ == before,
                        found ==> j > 0 && tools@[j - 1].name@ == def.name@,
                        forall|k: int|
                            0 <= k < (if found {
                                j - 1
                            } else {
                                j as int
                            }) ==> (#[trigger] tools@[k]).name@ != def.name@,
                    decreases tools@.len() - j + (if found {
                        0int
                    } else {
                        1int
                    }),
                {
                    if str_eq(tools[j].name.as_str(), def.name.as_str()) {
                        found = true;
                    }
                    j = j + 1;
                }
                proof {
                    lemma_first_named_facts(before, def.name@);
                }
                if found {
                    tools.set(j - 1, def.duplicate());
                } else {
                    tools.push(def.duplicate());
                }
            },
            ToolOverride::Remove(name) => {
                let mut kept: Vec<ChatToolDefinition> = Vec::new();
                let mut rest = tools;
                let total = rest.len();
                let mut k: usize = 0;
                while rest.len() > 0
                    invariant
                        k + rest@.len() == before.len(),
                        before.len() == total,
                        rest@ == before.skip(k as int),
                        kept@ == without_named(before.take(k as int), name@),
                    decreases rest@.len(),
                {
                    let t = rest.remove(0);
                    assert(t == before[k as int]);
                    assert(rest@ =~= before.skip(k + 1));
                    assert(before.take(k + 1).drop_last() =~= before.take(k as int));
                    if !str_eq(t.name.as_str(), name.as_str()) {
                        kept.push(t);
                    }
                    k = k + 1;
                }
                assert(before.take(k as int) =~= before);
                tools = kept;
            },
        }
        o = o + 1;
    }
    assert(overrides@.take(overrides@.len() as int) =~= overrides@);
    tools
}

} // verus!
