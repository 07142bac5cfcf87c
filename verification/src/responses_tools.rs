//! Client tools of OpenAI Responses requests: declarations, historical
//! calls, and the tool choice.

use vstd::prelude::*;

use crate::chat_completion::{named, required_in_thinking, tools_pair_view};
use crate::conversation::{ToolCall, ToolCallView, ToolChoice, ToolDefinition, ToolDefinitionView, opt_view, tools_view};
use crate::json::{JsonValue, JsonView, json_view};
use crate::request::{ConversionError, ConversionOptions, WebSearchBehavior};
use crate::responses_request::{
    ResponsesFunctionCall, ResponsesFunctionTool, ResponsesNamedToolChoice, ResponsesNamespaceTool, ResponsesTool,
    ResponsesToolChoice, ResponsesToolChoiceMode,
};
use crate::text::{append_chars, append_str, concat, decimal, decimal_chars, string_of, strings_view, unique_name, unique_name_spec};
use crate::validation::{is_object_schema, outcome_is, result_is, schema_compiles, valid_tool_name, validate_tool_name, validate_tool_parameters};

verus! {

/// The description of the `apply_patch` tool.
pub const APPLY_PATCH_DESCRIPTION: &'static str = "Use the `apply_patch` tool to edit files.\nYour patch language is a stripped‑down, file‑oriented diff format designed to be easy to parse and safe to apply. You can think of it as a high‑level envelope:\n\n*** Begin Patch\n[ one or more file sections ]\n*** End Patch\n\nWithin that envelope, you get a sequence of file operations.\nYou MUST include a header to specify the action you are taking.\nEach operation starts with one of three headers:\n\n*** Add File: <path> - create a new file. Every following line is a + line (the initial contents).\n*** Delete File: <path> - remove an existing file. Nothing follows.\n*** Update File: <path> - patch an existing file in place (optionally with a rename).\n\nMay be immediately followed by *** Move to: <new path> if you want to rename the file.\nThen one or more “hunks”, each introduced by @@ (optionally followed by a hunk header).\nWithin a hunk each line starts with:\n\nFor instructions on [context_before] and [context_after]:\n- By default, show 3 lines of code immediately above and 3 lines immediately below each change. If a change is within 3 lines of a previous change, do NOT duplicate the first change’s [context_after] lines in the second change’s [context_before] lines.\n- If 3 lines of context is insufficient to uniquely identify the snippet of code within the file, use the @@ operator to indicate the class or function to which the snippet belongs. For instance, we might have:\n@@ class BaseClass\n[3 lines of pre-context]\n- [old_code]\n+ [new_code]\n[3 lines of post-context]\n\n- If a code block is repeated so many times in a class or function such that even a single `@@` statement and 3 lines of context cannot uniquely identify the snippet of code, you can use multiple `@@` statements to jump to the right context. For instance:\n\n@@ class BaseClass\n@@ \t def method():\n[3 lines of pre-context]\n- [old_code]\n+ [new_code]\n[3 lines of post-context]\n\nThe full grammar definition is below:\nPatch := Begin { FileOp } End\nBegin := \"*** Begin Patch\" NEWLINE\nEnd := \"*** End Patch\" NEWLINE\nFileOp := AddFile | DeleteFile | UpdateFile\nAddFile := \"*** Add File: \" path NEWLINE { \"+\" line NEWLINE }\nDeleteFile := \"*** Delete File: \" path NEWLINE\nUpdateFile := \"*** Update File: \" path NEWLINE [ MoveTo ] { Hunk }\nMoveTo := \"*** Move to: \" newPath NEWLINE\nHunk := \"@@\" [ header ] NEWLINE { HunkLine } [ \"*** End of File\" NEWLINE ]\nHunkLine := (\" \" | \"-\" | \"+\") text NEWLINE\n\nA full patch can combine several operations:\n\n*** Begin Patch\n*** Add File: hello.txt\n+Hello world\n*** Update File: src/app.py\n*** Move to: src/main.py\n@@ def greet():\n-print(\"Hi\")\n+print(\"Hello, world!\")\n*** Delete File: obsolete.txt\n*** End Patch\n\nIt is important to remember:\n\n- You must include a header with your intended action (Add/Delete/Update)\n- You must prefix new lines with `+` even when creating a new file\n- File references can only be relative, NEVER ABSOLUTE.\n";

/// The description of the `input` parameter of the `apply_patch` tool.
pub const APPLY_PATCH_INPUT_DESCRIPTION: &'static str = "The entire contents of the apply_patch command (the *** Begin Patch ... *** End Patch envelope).";

/// The value of a function tool.
pub struct FunctionToolView {
    pub name: Seq<char>,
    pub description: Option<Seq<char>>,
    pub parameters: Option<JsonView>,
    pub strict: Option<bool>,
}

/// The value of a function tool.
pub open spec fn function_view(f: ResponsesFunctionTool) -> FunctionToolView {
    FunctionToolView {
        name: f.name@,
        description: opt_view(f.description),
        parameters: match f.parameters {
            Some(p) => Some(json_view(p)),
            None => None,
        },
        strict: f.strict,
    }
}

/// The values of a list of function tools.
pub open spec fn functions_view(fs: Seq<ResponsesFunctionTool>) -> Seq<FunctionToolView> {
    Seq::new(fs.len(), |i: int| function_view(fs[i]))
}

/// The parameter schema of the `apply_patch` tool.
pub open spec fn apply_patch_schema() -> JsonView {
    JsonView::Object(
        seq![
            ("type"@, JsonView::Str("object"@)),
            ("additionalProperties"@, JsonView::Bool(false)),
            (
                "properties"@,
                JsonView::Object(
                    seq![
                        (
                            "input"@,
                            JsonView::Object(
                                seq![
                                    ("type"@, JsonView::Str("string"@)),
                                    ("description"@, JsonView::Str(APPLY_PATCH_INPUT_DESCRIPTION@)),
                                ],
                            ),
                        ),
                    ],
                ),
            ),
            ("required"@, JsonView::Array(seq![JsonView::Str("input"@)])),
        ],
    )
}

/// The function tool the `apply_patch` custom tool becomes.
pub open spec fn apply_patch_view() -> FunctionToolView {
    FunctionToolView {
        name: "apply_patch"@,
        description: Some(APPLY_PATCH_DESCRIPTION@),
        parameters: Some(apply_patch_schema()),
        strict: None,
    }
}

/// Returns a JSON string value.
fn json_str(s: &str) -> (r: JsonValue)
    ensures
        json_view(r) == JsonView::Str(s@),
{
    JsonValue::String(s.to_string())
}

/// Returns a JSON object of the given members.
fn json_object(members: Vec<(String, JsonValue)>) -> (r: JsonValue)
    ensures
        json_view(r) == JsonView::Object(crate::json::member_views(members@)),
{
    JsonValue::Object(members)
}

/// Returns the `apply_patch` function tool.
pub fn apply_patch_tool() -> (r: ResponsesFunctionTool)
    ensures
        function_view(r) == apply_patch_view(),
{
    let mut input_members: Vec<(String, JsonValue)> = Vec::new();
    input_members.push(("type".to_string(), json_str("string")));
    input_members.push(("description".to_string(), json_str(APPLY_PATCH_INPUT_DESCRIPTION)));
    let ghost iv = crate::json::member_views(input_members@);
    proof {
        crate::json::lemma_member_views_len(input_members@);
        crate::json::lemma_member_views_index(input_members@, 0);
        crate::json::lemma_member_views_index(input_members@, 1);
    }
    assert(iv =~= seq![("type"@, JsonView::Str("string"@)), ("description"@, JsonView::Str(APPLY_PATCH_INPUT_DESCRIPTION@))]);
    let input = json_object(input_members);
    let mut props: Vec<(String, JsonValue)> = Vec::new();
    props.push(("input".to_string(), input));
    proof {
        crate::json::lemma_member_views_len(props@);
        crate::json::lemma_member_views_index(props@, 0);
    }
    assert(crate::json::member_views(props@) =~= seq![("input"@, JsonView::Object(iv))]);
    let properties = json_object(props);
    let mut required: Vec<JsonValue> = Vec::new();
    required.push(json_str("input"));
    proof {
        crate::json::lemma_json_views_len(required@);
        crate::json::lemma_json_views_index(required@, 0);
    }
    assert(crate::json::json_views(required@) =~= seq![JsonView::Str("input"@)]);
    let mut members: Vec<(String, JsonValue)> = Vec::new();
    members.push(("type".to_string(), json_str("object")));
    members.push(("additionalProperties".to_string(), JsonValue::Bool(false)));
    members.push(("properties".to_string(), properties));
    members.push(("required".to_string(), JsonValue::Array(required)));
    proof {
        crate::json::lemma_member_views_len(members@);
        crate::json::lemma_member_views_index(members@, 0);
        crate::json::lemma_member_views_index(members@, 1);
        crate::json::lemma_member_views_index(members@, 2);
        crate::json::lemma_member_views_index(members@, 3);
    }
    let ghost mv = crate::json::member_views(members@);
    assert(mv[0] == ("type"@, JsonView::Str("object"@)));
    assert(mv[1] == ("additionalProperties"@, JsonView::Bool(false)));
    assert(mv[2].1 == JsonView::Object(seq![("input"@, JsonView::Object(iv))]));
    assert(mv[3].1 == JsonView::Array(seq![JsonView::Str("input"@)]));
    assert(mv =~= apply_patch_schema()->Object_0);
    let schema = json_object(members);
    ResponsesFunctionTool {
        name: "apply_patch".to_string(),
        description: Some(APPLY_PATCH_DESCRIPTION.to_string()),
        parameters: Some(schema),
        strict: None,
    }
}


// ---------------------------------------------------------------------------
// Declarations

/// The value of a converted tool set: the function tools in order, the name
/// each namespaced function was given, and the names of the top-level
/// function tools.
pub struct ToolSetView {
    pub definitions: Seq<FunctionToolView>,
    pub namespace_names: Seq<(Seq<char>, Seq<char>, Seq<char>)>,
    pub top_level_names: Seq<Seq<char>>,
}

/// The tools of a Responses request after conversion.
pub struct ResponsesToolSet {
    definitions: Vec<ResponsesFunctionTool>,
    namespace_names: Vec<(String, String, String)>,
    top_level_names: Vec<String>,
}

/// The value of a list of string triples.
pub open spec fn triples_view(v: Seq<(String, String, String)>) -> Seq<(Seq<char>, Seq<char>, Seq<char>)> {
    Seq::new(v.len(), |i: int| (v[i].0@, v[i].1@, v[i].2@))
}

impl View for ResponsesToolSet {
    type V = ToolSetView;

    closed spec fn view(&self) -> ToolSetView {
        ToolSetView {
            definitions: functions_view(self.definitions@),
            namespace_names: triples_view(self.namespace_names@),
            top_level_names: strings_view(self.top_level_names@),
        }
    }
}

/// The names given to namespaced functions.
pub open spec fn given_names(entries: Seq<(Seq<char>, Seq<char>, Seq<char>)>) -> Seq<Seq<char>> {
    Seq::new(entries.len(), |i: int| entries[i].2)
}

/// The names a new namespaced function must avoid.
pub open spec fn taken_names(st: ToolSetView) -> Seq<Seq<char>> {
    st.top_level_names + given_names(st.namespace_names)
}

/// The name a namespaced function starts from: `namespace::name`.
pub open spec fn joined(namespace: Seq<char>, name: Seq<char>) -> Seq<char> {
    namespace + "::"@ + name
}

/// The names of the top-level function tools.
pub open spec fn top_names(tools: Seq<ResponsesTool>) -> Seq<Seq<char>>
    decreases tools.len(),
{
    if tools.len() == 0 {
        Seq::empty()
    } else {
        top_names(tools.drop_last()) + match tools.last() {
            ResponsesTool::Function(f) => seq![f.name@],
            _ => Seq::empty(),
        }
    }
}

/// The path of tool `i`.
pub open spec fn tools_path(i: int) -> Seq<char> {
    "tools["@ + decimal(i as nat) + "]"@
}

/// The path of tool `k` inside the namespace at `path`.
pub open spec fn inner_path(path: Seq<char>, k: int) -> Seq<char> {
    path + ".tools["@ + decimal(k as nat) + "]"@
}

/// The error detail of an invalid tool name at `path`.
pub open spec fn bad_name(path: Seq<char>) -> Seq<char> {
    path + ".name"@ + ": expected 1-128 ASCII letters, digits, underscores or hyphens"@
}

/// The description of a namespaced function: a non-empty namespace
/// description goes first, on a line of its own.
pub open spec fn namespaced_description(namespace: Option<Seq<char>>, description: Option<Seq<char>>) -> Option<Seq<char>> {
    match namespace {
        Some(n) => if n.len() > 0 {
            Some(
                n + "\n"@ + match description {
                    Some(d) => d,
                    None => Seq::empty(),
                },
            )
        } else {
            description
        },
        None => description,
    }
}

/// The name of a function inside a namespace.
pub open spec fn inner_name(t: ResponsesNamespaceTool) -> Option<Seq<char>> {
    match t {
        ResponsesNamespaceTool::Function(f) => Some(f.name@),
        ResponsesNamespaceTool::Custom { .. } => None,
    }
}

/// Whether inner tool `i` repeats the name of an earlier function of the
/// namespace.
pub open spec fn inner_repeats(inner: Seq<ResponsesNamespaceTool>, i: int) -> bool {
    inner_name(inner[i]) is Some && exists|j: int| 0 <= j < i && #[trigger] inner_name(inner[j]) == inner_name(inner[i])
}

/// The tool set after the first `k` tools of a namespace, or the first error.
pub open spec fn namespace_fold(
    st: ToolSetView,
    namespace: Seq<char>,
    description: Option<Seq<char>>,
    inner: Seq<ResponsesNamespaceTool>,
    k: int,
    path: Seq<char>,
) -> Result<ToolSetView, Seq<char>>
    decreases k,
{
    if k <= 0 {
        Ok(st)
    } else {
        match namespace_fold(st, namespace, description, inner, k - 1, path) {
            Err(e) => Err(e),
            Ok(s) => {
                let ip = inner_path(path, k - 1);
                match inner[k - 1] {
                    ResponsesNamespaceTool::Custom { .. } => Err(ip + ": custom tools are not supported inside a namespace"@),
                    ResponsesNamespaceTool::Function(f) => if !valid_tool_name(f.name@) {
                        Err(bad_name(ip))
                    } else if inner_repeats(inner, k - 1) {
                        Err(ip + ": tool names within a namespace must be unique"@)
                    } else {
                        let fv = function_view(f);
                        let given = unique_name_spec(joined(namespace, f.name@), taken_names(s));
                        Ok(
                            ToolSetView {
                                definitions: s.definitions.push(
                                    FunctionToolView {
                                        name: given,
                                        description: namespaced_description(description, fv.description),
                                        parameters: fv.parameters,
                                        strict: fv.strict,
                                    },
                                ),
                                namespace_names: s.namespace_names.push((namespace, f.name@, given)),
                                top_level_names: s.top_level_names,
                            },
                        )
                    },
                }
            },
        }
    }
}

/// The tool set and the namespaces seen after one more tool, or its error.
pub open spec fn tool_step(
    st: ToolSetView,
    namespaces: Seq<Seq<char>>,
    tool: ResponsesTool,
    i: int,
    web_search: WebSearchBehavior,
) -> Result<(ToolSetView, Seq<Seq<char>>), Seq<char>> {
    let path = tools_path(i);
    match tool {
        ResponsesTool::Function(f) => if !valid_tool_name(f.name@) {
            Err(bad_name(path))
        } else {
            Ok((ToolSetView { definitions: st.definitions.push(function_view(f)), ..st }, namespaces))
        },
        ResponsesTool::Namespace { name, description, tools } => if !valid_tool_name(name@) {
            Err(bad_name(path))
        } else if namespaces.contains(name@) {
            Err(path + ": duplicate namespace name '"@ + name@ + "'"@)
        } else {
            match namespace_fold(st, name@, opt_view(description), tools@, tools@.len() as int, path) {
                Err(e) => Err(e),
                Ok(s) => Ok((s, namespaces.push(name@))),
            }
        },
        ResponsesTool::Custom { name } => if name@ != "apply_patch"@ {
            Err("Unsupported custom tool: '"@ + name@ + "'. Only 'apply_patch' is supported"@)
        } else {
            Ok((ToolSetView { definitions: st.definitions.push(apply_patch_view()), ..st }, namespaces))
        },
        ResponsesTool::WebSearch => match web_search {
            WebSearchBehavior::Ignore => Ok((st, namespaces)),
            WebSearchBehavior::Reject => Err("Server tools are not supported"@),
        },
        ResponsesTool::Unsupported => Ok((st, namespaces)),
    }
}

/// The tool set after the first `n` tools, with the namespaces seen, or the
/// first error.
pub open spec fn tools_fold(tools: Seq<ResponsesTool>, web_search: WebSearchBehavior, n: int) -> Result<(ToolSetView, Seq<Seq<char>>), Seq<char>>
    decreases n,
{
    if n <= 0 {
        Ok((ToolSetView { definitions: Seq::empty(), namespace_names: Seq::empty(), top_level_names: top_names(tools) }, Seq::empty()))
    } else {
        match tools_fold(tools, web_search, n - 1) {
            Err(e) => Err(e),
            Ok(p) => tool_step(p.0, p.1, tools[n - 1], n - 1, web_search),
        }
    }
}

/// The converted tool set of a request, or the first error.
pub open spec fn tool_set_spec(tools: Seq<ResponsesTool>, web_search: WebSearchBehavior) -> Result<ToolSetView, Seq<char>> {
    match tools_fold(tools, web_search, tools.len() as int) {
        Err(e) => Err(e),
        Ok(p) => Ok(p.0),
    }
}


/// Once the fold of a namespace fails, later tools keep the error.
proof fn lemma_namespace_fold_err(
    st: ToolSetView,
    namespace: Seq<char>,
    description: Option<Seq<char>>,
    inner: Seq<ResponsesNamespaceTool>,
    k: int,
    m: int,
    path: Seq<char>,
)
    requires
        0 <= k <= m,
        namespace_fold(st, namespace, description, inner, k, path) is Err,
    ensures
        namespace_fold(st, namespace, description, inner, m, path) == namespace_fold(st, namespace, description, inner, k, path),
    decreases m - k,
{
    if k < m {
        lemma_namespace_fold_err(st, namespace, description, inner, k, m - 1, path);
    }
}

/// Once the fold of the tools fails, later tools keep the error.
proof fn lemma_tools_fold_err(tools: Seq<ResponsesTool>, web_search: WebSearchBehavior, n: int, m: int)
    requires
        0 <= n <= m,
        tools_fold(tools, web_search, n) is Err,
    ensures
        tools_fold(tools, web_search, m) == tools_fold(tools, web_search, n),
    decreases m - n,
{
    if n < m {
        lemma_tools_fold_err(tools, web_search, n, m - 1);
    }
}

/// Returns a copy of a function tool.
fn duplicate_function(f: &ResponsesFunctionTool) -> (r: ResponsesFunctionTool)
    ensures
        function_view(r) == function_view(*f),
{
    ResponsesFunctionTool {
        name: f.name.clone(),
        description: crate::conversation::duplicate_opt(&f.description),
        parameters: match &f.parameters {
            Some(p) => Some(crate::json::duplicate_json(p)),
            None => None,
        },
        strict: f.strict,
    }
}

/// Returns the path of tool `i`.
fn tools_path_exec(i: usize) -> (r: String)
    ensures
        r@ == tools_path(i as int),
{
    let mut out: Vec<char> = Vec::new();
    append_str(&mut out, "tools[");
    let d = decimal_chars(i);
    append_chars(&mut out, d.as_slice());
    append_str(&mut out, "]");
    assert(out@ =~= tools_path(i as int));
    string_of(out.as_slice())
}

/// Returns the path of tool `k` inside the namespace at `path`.
fn inner_path_exec(path: &str, k: usize) -> (r: String)
    ensures
        r@ == inner_path(path@, k as int),
{
    let mut out: Vec<char> = Vec::new();
    append_str(&mut out, path);
    append_str(&mut out, ".tools[");
    let d = decimal_chars(k);
    append_chars(&mut out, d.as_slice());
    append_str(&mut out, "]");
    assert(out@ =~= inner_path(path@, k as int));
    string_of(out.as_slice())
}

/// Checks the name of the tool at `path`.
fn check_name(name: &str, path: &str) -> (r: Result<(), ConversionError>)
    ensures
        valid_tool_name(name@) ==> r is Ok,
        !valid_tool_name(name@) ==> crate::validation::fails_with(r, bad_name(path@)),
{
    let field = concat(path, ".name");
    let r = validate_tool_name(name, field.as_str());
    assert(field@ + ": expected 1-128 ASCII letters, digits, underscores or hyphens"@ =~= bad_name(path@));
    r
}

/// Returns the description of a namespaced function.
fn namespaced_description_exec(namespace: &Option<String>, description: &Option<String>) -> (r: Option<String>)
    ensures
        opt_view(r) == namespaced_description(opt_view(*namespace), opt_view(*description)),
{
    match namespace {
        Some(n) => if n.as_str().is_empty() {
            crate::conversation::duplicate_opt(description)
        } else {
            let mut out = crate::text::chars_of(n.as_str());
            append_str(&mut out, "\n");
            match description {
                Some(d) => append_str(&mut out, d.as_str()),
                None => {},
            }
            let ghost dv = match opt_view(*description) {
                Some(d) => d,
                None => Seq::<char>::empty(),
            };
            assert(out@ =~= n@ + "\n"@ + dv);
            Some(string_of(out.as_slice()))
        },
        None => crate::conversation::duplicate_opt(description),
    }
}

/// Returns whether inner tool `k` repeats the name of an earlier function.
fn inner_repeats_exec(inner: &Vec<ResponsesNamespaceTool>, k: usize) -> (r: bool)
    requires
        k < inner@.len(),
    ensures
        r == inner_repeats(inner@, k as int),
{
    let name = match &inner[k] {
        ResponsesNamespaceTool::Function(f) => &f.name,
        ResponsesNamespaceTool::Custom { .. } => {
            return false;
        },
    };
    let mut j: usize = 0;
    while j < k
        invariant
            j <= k < inner@.len(),
            inner_name(inner@[k as int]) == Some(name@),
            forall|i: int| 0 <= i < j ==> inner_name(inner@[i]) != Some(name@),
        decreases k - j,
    {
        if let ResponsesNamespaceTool::Function(g) = &inner[j] {
            if crate::text::str_eq(g.name.as_str(), name.as_str()) {
                assert(inner_name(inner@[j as int]) == inner_name(inner@[k as int]));
                return true;
            }
        }
        j += 1;
    }
    false
}

impl ResponsesToolSet {
    /// Returns the names a new namespaced function must avoid.
    fn taken(&self) -> (r: Vec<String>)
        ensures
            strings_view(r@) == taken_names(self@),
    {
        let mut out = crate::text::copy_strings(&self.top_level_names);
        let mut i: usize = 0;
        while i < self.namespace_names.len()
            invariant
                i <= self.namespace_names@.len(),
                strings_view(out@) == strings_view(self.top_level_names@) + given_names(triples_view(self.namespace_names@)).take(i as int),
            decreases self.namespace_names@.len() - i,
        {
            let ghost before = out@;
            out.push(self.namespace_names[i].2.clone());
            assert(strings_view(out@) =~= strings_view(before).push(self.namespace_names@[i as int].2@));
            assert(given_names(triples_view(self.namespace_names@)).take(i + 1) =~= given_names(triples_view(self.namespace_names@)).take(
                i as int,
            ).push(self.namespace_names@[i as int].2@));
            i += 1;
        }
        assert(given_names(triples_view(self.namespace_names@)).take(i as int) =~= given_names(triples_view(self.namespace_names@)));
        out
    }

    /// Convert the functions of a namespace.
    fn convert_namespace(
        &mut self,
        namespace: &String,
        description: &Option<String>,
        inner: &Vec<ResponsesNamespaceTool>,
        path: &str,
    ) -> (r: Result<(), ConversionError>)
        ensures
            match namespace_fold(old(self)@, namespace@, opt_view(*description), inner@, inner@.len() as int, path@) {
                Ok(s) => r is Ok && final(self)@ == s,
                Err(d) => crate::validation::fails_with(r, d),
            },
    {
        let ghost s0 = self@;
        let n = inner.len();
        let mut k: usize = 0;
        while k < n
            invariant
                n == inner@.len(),
                k <= n,
                namespace_fold(s0, namespace@, opt_view(*description), inner@, k as int, path@) == Ok::<ToolSetView, Seq<char>>(self@),
                s0 == old(self)@,
            decreases n - k,
        {
            let ip = inner_path_exec(path, k);
            let f = match &inner[k] {
                ResponsesNamespaceTool::Function(f) => f,
                ResponsesNamespaceTool::Custom { .. } => {
                    proof {
                        assert(namespace_fold(s0, namespace@, opt_view(*description), inner@, k + 1, path@) == Err::<ToolSetView, Seq<char>>(
                            ip@ + ": custom tools are not supported inside a namespace"@,
                        ));
                        lemma_namespace_fold_err(s0, namespace@, opt_view(*description), inner@, k + 1, n as int, path@);
                    }
                    return Err(ConversionError::bad_request(concat(ip.as_str(), ": custom tools are not supported inside a namespace")));
                },
            };
            assert(inner@[k as int] == ResponsesNamespaceTool::Function(*f));
            if let Err(e) = check_name(f.name.as_str(), ip.as_str()) {
                proof {
                    assert(namespace_fold(s0, namespace@, opt_view(*description), inner@, k + 1, path@) == Err::<ToolSetView, Seq<char>>(
                        bad_name(ip@),
                    ));
                    lemma_namespace_fold_err(s0, namespace@, opt_view(*description), inner@, k + 1, n as int, path@);
                }
                return Err(e);
            }
            if inner_repeats_exec(inner, k) {
                proof {
                    lemma_namespace_fold_err(s0, namespace@, opt_view(*description), inner@, k + 1, n as int, path@);
                }
                return Err(ConversionError::bad_request(concat(ip.as_str(), ": tool names within a namespace must be unique")));
            }
            let taken = self.taken();
            let mut base = crate::text::chars_of(namespace.as_str());
            append_str(&mut base, "::");
            append_str(&mut base, f.name.as_str());
            assert(base@ =~= joined(namespace@, f.name@));
            let given = unique_name(string_of(base.as_slice()), &taken);
            let mut g = duplicate_function(f);
            g.name = given.clone();
            g.description = namespaced_description_exec(description, &f.description);
            let ghost before = self@;
            self.namespace_names.push((namespace.clone(), f.name.clone(), given));
            self.definitions.push(g);
            assert(self@.definitions =~= before.definitions.push(function_view(g)));
            assert(self@.namespace_names =~= before.namespace_names.push((namespace@, f.name@, g.name@)));
            k += 1;
        }
        Ok(())
    }

    /// Convert the tool declarations of a request: check names, expand
    /// namespaces into uniquely named functions, and turn the `apply_patch`
    /// custom tool into a function tool.
    pub fn convert(tools: Option<Vec<ResponsesTool>>, options: &ConversionOptions) -> (r: Result<ResponsesToolSet, ConversionError>)
        ensures
            result_is(
                r,
                tool_set_spec(
                    match tools { Some(v) => v@, None => Seq::empty() },
                    options.responses_web_search,
                ),
                |s: ResponsesToolSet| s@,
            ),
    {
        let list = match tools {
            Some(v) => v,
            None => Vec::new(),
        };
        let ghost ts = list@;
        assert(ts == match tools { Some(v) => v@, None => Seq::<ResponsesTool>::empty() });
        let ghost web = options.responses_web_search;
        let n = list.len();
        let mut top: Vec<String> = Vec::new();
        let mut i: usize = 0;
        while i < n
            invariant
                n == list@.len(),
                i <= n,
                ts == list@,
                strings_view(top@) == top_names(ts.take(i as int)),
            decreases n - i,
        {
            let ghost before = top@;
            assert(ts.take(i + 1).drop_last() =~= ts.take(i as int));
            if let ResponsesTool::Function(f) = &list[i] {
                top.push(f.name.clone());
                assert(strings_view(top@) =~= strings_view(before) + seq![f.name@]);
            } else {
                assert(strings_view(top@) =~= strings_view(before) + Seq::<Seq<char>>::empty());
            }
            i += 1;
        }
        assert(ts.take(n as int) =~= ts);
        let mut set = ResponsesToolSet { definitions: Vec::new(), namespace_names: Vec::new(), top_level_names: top };
        let mut namespaces: Vec<String> = Vec::new();
        assert(set@.definitions =~= Seq::<FunctionToolView>::empty());
        assert(set@.namespace_names =~= Seq::<(Seq<char>, Seq<char>, Seq<char>)>::empty());
        assert(strings_view(namespaces@) =~= Seq::<Seq<char>>::empty());
        let mut i: usize = 0;
        while i < n
            invariant
                n == list@.len(),
                i <= n,
                ts == list@,
                web == options.responses_web_search,
                ts == match tools { Some(v) => v@, None => Seq::<ResponsesTool>::empty() },
                tools_fold(ts, web, i as int) == Ok::<(ToolSetView, Seq<Seq<char>>), Seq<char>>((set@, strings_view(namespaces@))),
            decreases n - i,
        {
            let path = tools_path_exec(i);
            match &list[i] {
                ResponsesTool::Function(f) => {
                    if let Err(e) = check_name(f.name.as_str(), path.as_str()) {
                        proof {
                            assert(tools_fold(ts, web, i + 1) == Err::<(ToolSetView, Seq<Seq<char>>), Seq<char>>(bad_name(path@)));
                            lemma_tools_fold_err(ts, web, i + 1, n as int);
                        }
                        return Err(e);
                    }
                    let ghost before = set@;
                    set.definitions.push(duplicate_function(f));
                    assert(set@.definitions =~= before.definitions.push(function_view(*f)));
                },
                ResponsesTool::Namespace { name, description, tools: inner } => {
                    if let Err(e) = check_name(name.as_str(), path.as_str()) {
                        proof {
                            assert(tools_fold(ts, web, i + 1) == Err::<(ToolSetView, Seq<Seq<char>>), Seq<char>>(bad_name(path@)));
                            lemma_tools_fold_err(ts, web, i + 1, n as int);
                        }
                        return Err(e);
                    }
                    if crate::text::strings_contain(&namespaces, name.as_str()) {
                        proof {
                            lemma_tools_fold_err(ts, web, i + 1, n as int);
                        }
                        let mut out = crate::text::chars_of(path.as_str());
                        append_str(&mut out, ": duplicate namespace name '");
                        append_str(&mut out, name.as_str());
                        append_str(&mut out, "'");
                        assert(out@ =~= path@ + ": duplicate namespace name '"@ + name@ + "'"@);
                        return Err(ConversionError::bad_request(string_of(out.as_slice())));
                    }
                    let ghost before_ns = namespaces@;
                    if let Err(e) = set.convert_namespace(name, description, inner, path.as_str()) {
                        proof {
                            lemma_tools_fold_err(ts, web, i + 1, n as int);
                        }
                        return Err(e);
                    }
                    namespaces.push(name.clone());
                    assert(strings_view(namespaces@) =~= strings_view(before_ns).push(name@));
                },
                ResponsesTool::Custom { name } => {
                    if !crate::text::str_eq(name.as_str(), "apply_patch") {
                        proof {
                            lemma_tools_fold_err(ts, web, i + 1, n as int);
                        }
                        let mut out: Vec<char> = Vec::new();
                        append_str(&mut out, "Unsupported custom tool: '");
                        append_str(&mut out, name.as_str());
                        append_str(&mut out, "'. Only 'apply_patch' is supported");
                        assert(out@ =~= "Unsupported custom tool: '"@ + name@ + "'. Only 'apply_patch' is supported"@);
                        return Err(ConversionError::bad_request(string_of(out.as_slice())));
                    }
                    let ghost before = set@;
                    set.definitions.push(apply_patch_tool());
                    assert(set@.definitions =~= before.definitions.push(apply_patch_view()));
                },
                ResponsesTool::WebSearch => match options.responses_web_search {
                    WebSearchBehavior::Ignore => {},
                    WebSearchBehavior::Reject => {
                        proof {
                            lemma_tools_fold_err(ts, web, i + 1, n as int);
                        }
                        return Err(ConversionError::bad_request("Server tools are not supported".to_string()));
                    },
                },
                ResponsesTool::Unsupported => {},
            }
            i += 1;
        }
        Ok(set)
    }
}


// ---------------------------------------------------------------------------
// Historical calls

/// The name stored for `(namespace, name)` from entry `i` on, if any.
pub open spec fn lookup_from(
    entries: Seq<(Seq<char>, Seq<char>, Seq<char>)>,
    namespace: Seq<char>,
    name: Seq<char>,
    i: int,
) -> Option<Seq<char>>
    decreases entries.len() - i,
{
    if i < 0 || i >= entries.len() {
        None
    } else if entries[i].0 == namespace && entries[i].1 == name {
        Some(entries[i].2)
    } else {
        lookup_from(entries, namespace, name, i + 1)
    }
}

/// The name stored for `(namespace, name)`, if any.
pub open spec fn lookup(entries: Seq<(Seq<char>, Seq<char>, Seq<char>)>, namespace: Seq<char>, name: Seq<char>) -> Option<Seq<char>> {
    lookup_from(entries, namespace, name, 0)
}

/// The name a historical function call gets, with the names given to
/// earlier historical calls after it: a declared namespaced function keeps
/// its converted name, an earlier historical pair keeps its name, and a new
/// pair gets a unique name that is recorded.
pub open spec fn call_name_spec(
    set: ToolSetView,
    historical: Seq<(Seq<char>, Seq<char>, Seq<char>)>,
    namespace: Option<Seq<char>>,
    name: Seq<char>,
) -> (Seq<char>, Seq<(Seq<char>, Seq<char>, Seq<char>)>) {
    match namespace {
        None => (name, historical),
        Some(ns) => match lookup(set.namespace_names, ns, name) {
            Some(given) => (given, historical),
            None => match lookup(historical, ns, name) {
                Some(given) => (given, historical),
                None => {
                    let given = unique_name_spec(joined(ns, name), taken_names(set) + given_names(historical));
                    (given, historical.push((ns, name, given)))
                },
            },
        },
    }
}

/// Returns the name stored for `(namespace, name)`.
fn lookup_exec(entries: &Vec<(String, String, String)>, namespace: &str, name: &str) -> (r: Option<String>)
    ensures
        opt_view(r) == lookup(triples_view(entries@), namespace@, name@),
{
    let ghost tv = triples_view(entries@);
    let mut i: usize = 0;
    while i < entries.len()
        invariant
            i <= entries@.len(),
            tv == triples_view(entries@),
            lookup(tv, namespace@, name@) == lookup_from(tv, namespace@, name@, i as int),
        decreases entries@.len() - i,
    {
        if crate::text::str_eq(entries[i].0.as_str(), namespace) && crate::text::str_eq(entries[i].1.as_str(), name) {
            return Some(entries[i].2.clone());
        }
        i += 1;
    }
    None
}

impl ResponsesToolSet {
    /// Convert a historical function call, naming a namespaced function as
    /// its declaration does, or as an earlier historical call of the same
    /// pair did, or with a new unique name recorded in `historical_names`.
    pub fn function_call(&self, call: ResponsesFunctionCall, historical_names: &mut Vec<(String, String, String)>) -> (r: ToolCall)
        ensures
            (r@.name, triples_view(final(historical_names)@)) == call_name_spec(
                self@,
                triples_view(old(historical_names)@),
                opt_view(call.namespace),
                call.name@,
            ),
            r@.id == call.call_id@,
            r@.arguments == call.arguments@,
    {
        let name = match &call.namespace {
            None => call.name,
            Some(ns) => {
                match lookup_exec(&self.namespace_names, ns.as_str(), call.name.as_str()) {
                    Some(given) => given,
                    None => match lookup_exec(historical_names, ns.as_str(), call.name.as_str()) {
                        Some(given) => given,
                        None => {
                            let mut taken = self.taken();
                            let mut i: usize = 0;
                            let ghost t0 = strings_view(taken@);
                            let ghost hv = triples_view(historical_names@);
                            while i < historical_names.len()
                                invariant
                                    i <= historical_names@.len(),
                                    hv == triples_view(historical_names@),
                                    strings_view(taken@) == t0 + given_names(hv).take(i as int),
                                decreases historical_names@.len() - i,
                            {
                                let ghost before = taken@;
                                taken.push(historical_names[i].2.clone());
                                assert(strings_view(taken@) =~= strings_view(before).push(hv[i as int].2));
                                assert(given_names(hv).take(i + 1) =~= given_names(hv).take(i as int).push(hv[i as int].2));
                                i += 1;
                            }
                            assert(given_names(hv).take(i as int) =~= given_names(hv));
                            let mut base = crate::text::chars_of(ns.as_str());
                            append_str(&mut base, "::");
                            append_str(&mut base, call.name.as_str());
                            assert(base@ =~= joined(ns@, call.name@));
                            let given = unique_name(string_of(base.as_slice()), &taken);
                            historical_names.push((ns.clone(), call.name.clone(), given.clone()));
                            assert(triples_view(historical_names@) =~= hv.push((ns@, call.name@, given@)));
                            given
                        },
                    },
                }
            },
        };
        ToolCall { id: call.call_id, name, arguments: call.arguments }
    }
}

// ---------------------------------------------------------------------------
// Tool choice

/// The definition a function tool becomes; one without parameters takes the
/// empty object schema.
pub open spec fn definition_of_function(f: FunctionToolView) -> ToolDefinitionView {
    ToolDefinitionView {
        name: f.name,
        description: f.description,
        parameters: match f.parameters {
            Some(p) => p,
            None => JsonView::Object(Seq::empty()),
        },
        strict: f.strict,
    }
}

/// Whether function `i` repeats the name of an earlier function.
pub open spec fn function_repeats(defs: Seq<FunctionToolView>, i: int) -> bool {
    exists|j: int| 0 <= j < i && #[trigger] defs[j].name == defs[i].name
}

/// The definitions of the first `n` functions, or the first error: a
/// repeated name, or a parameter schema that is not an object schema
/// (`Some` detail) or that does not compile (`None`).
pub open spec fn checked_definitions(defs: Seq<FunctionToolView>, n: int) -> Result<Seq<ToolDefinitionView>, Option<Seq<char>>>
    decreases n,
{
    if n <= 0 {
        Ok(Seq::empty())
    } else {
        match checked_definitions(defs, n - 1) {
            Err(e) => Err(e),
            Ok(d) => if function_repeats(defs, n - 1) {
                Err(Some("Tool names must be unique"@))
            } else {
                match defs[n - 1].parameters {
                    Some(p) => if !is_object_schema(p) {
                        Err(Some("Tool '"@ + defs[n - 1].name + "' parameters"@ + " must be a JSON Schema of type object"@))
                    } else if !schema_compiles(p) {
                        Err(None)
                    } else {
                        Ok(d.push(definition_of_function(defs[n - 1])))
                    },
                    None => Ok(d.push(definition_of_function(defs[n - 1]))),
                }
            },
        }
    }
}

/// Once the check of the definitions fails, later functions keep the error.
proof fn lemma_checked_err(defs: Seq<FunctionToolView>, n: int, m: int)
    requires
        0 <= n <= m,
        checked_definitions(defs, n) is Err,
    ensures
        checked_definitions(defs, m) == checked_definitions(defs, n),
    decreases m - n,
{
    if n < m {
        lemma_checked_err(defs, n, m - 1);
    }
}

/// The tool a choice names, for function and custom tool choices.
pub open spec fn choice_name(choice: Option<ResponsesToolChoice>) -> Option<Seq<char>> {
    match choice {
        Some(ResponsesToolChoice::Named(ResponsesNamedToolChoice::Function { name })) => Some(name@),
        Some(ResponsesToolChoice::Named(ResponsesNamedToolChoice::Custom { name })) => Some(name@),
        _ => None,
    }
}

/// Whether some function has the name `name`.
pub open spec fn declares_function(defs: Seq<FunctionToolView>, name: Seq<char>) -> bool {
    exists|j: int| 0 <= j < defs.len() && #[trigger] defs[j].name == name
}

/// The tool definitions and the tool choice of a request, or its first
/// error.
pub open spec fn select_spec(
    set: ToolSetView,
    choice: Option<ResponsesToolChoice>,
    thinking: bool,
    web_search: WebSearchBehavior,
) -> Result<(Seq<ToolDefinitionView>, ToolChoice), Option<Seq<char>>> {
    if choice matches Some(ResponsesToolChoice::Named(ResponsesNamedToolChoice::WebSearch)) && web_search == WebSearchBehavior::Reject {
        Err(Some("Server tools are not supported"@))
    } else if choice matches Some(ResponsesToolChoice::Mode(ResponsesToolChoiceMode::Disabled)) {
        Ok((Seq::empty(), ToolChoice::Disabled))
    } else if set.definitions.len() == 0 {
        Ok((Seq::empty(), ToolChoice::Auto))
    } else {
        match checked_definitions(set.definitions, set.definitions.len() as int) {
            Err(e) => Err(e),
            Ok(d) => match choice_name(choice) {
                Some(name) => if !declares_function(set.definitions, name) {
                    Err(Some("tool_choice: no tool named '"@ + name + "' was specified"@))
                } else if thinking {
                    Err(Some(required_in_thinking()))
                } else {
                    Ok((named(d, name), ToolChoice::Required))
                },
                None => if choice matches Some(ResponsesToolChoice::Mode(ResponsesToolChoiceMode::Required)) {
                    if thinking {
                        Err(Some(required_in_thinking()))
                    } else {
                        Ok((d, ToolChoice::Required))
                    }
                } else {
                    Ok((d, ToolChoice::Auto))
                },
            },
        }
    }
}

/// Returns the definition a function tool becomes.
fn definition_from_function(f: &ResponsesFunctionTool) -> (r: ToolDefinition)
    ensures
        r@ == definition_of_function(function_view(*f)),
{
    let parameters = match &f.parameters {
        Some(p) => crate::json::duplicate_json(p),
        None => {
            let members: Vec<(String, JsonValue)> = Vec::new();
            assert(crate::json::member_views(members@) =~= Seq::<(Seq<char>, JsonView)>::empty());
            JsonValue::Object(members)
        },
    };
    ToolDefinition {
        name: f.name.clone(),
        description: crate::conversation::duplicate_opt(&f.description),
        parameters,
        strict: f.strict,
    }
}

impl ResponsesToolSet {
    /// Returns whether function `i` repeats the name of an earlier one.
    fn repeats_exec(&self, i: usize) -> (r: bool)
        requires
            i < self@.definitions.len(),
        ensures
            r == function_repeats(self@.definitions, i as int),
    {
        let mut j: usize = 0;
        while j < i
            invariant
                j <= i < self.definitions@.len(),
                forall|k: int| 0 <= k < j ==> self.definitions@[k].name@ != self.definitions@[i as int].name@,
            decreases i - j,
        {
            if crate::text::str_eq(self.definitions[j].name.as_str(), self.definitions[i].name.as_str()) {
                assert(self@.definitions[j as int].name == self@.definitions[i as int].name);
                return true;
            }
            j += 1;
        }
        assert forall|k: int| 0 <= k < i implies #[trigger] self@.definitions[k].name != self@.definitions[i as int].name by {
            assert(self@.definitions[k].name == self.definitions@[k].name@);
        }
        false
    }

    /// Select the tool definitions and the tool choice: a choice of the
    /// dropped web search tool counts as none, a disabled choice drops all
    /// tools, names must be unique and parameter schemas valid, a named
    /// choice keeps only its tool, and a required call is refused in
    /// thinking mode.
    pub fn select(self, choice: Option<ResponsesToolChoice>, thinking: bool, options: &ConversionOptions) -> (r: Result<
        (Vec<ToolDefinition>, ToolChoice),
        ConversionError,
    >)
        ensures
            outcome_is(
                r,
                select_spec(self@, choice, thinking, options.responses_web_search),
                |p: (Vec<ToolDefinition>, ToolChoice)| tools_pair_view(p),
            ),
    {
        let ghost sv = self@;
        if let Some(ResponsesToolChoice::Named(ResponsesNamedToolChoice::WebSearch)) = &choice {
            if let WebSearchBehavior::Reject = options.responses_web_search {
                return Err(ConversionError::bad_request("Server tools are not supported".to_string()));
            }
        }
        let empty: Vec<ToolDefinition> = Vec::new();
        assert(tools_view(empty@) =~= Seq::<ToolDefinitionView>::empty());
        if let Some(ResponsesToolChoice::Mode(ResponsesToolChoiceMode::Disabled)) = &choice {
            return Ok((empty, ToolChoice::Disabled));
        }
        let n = self.definitions.len();
        if n == 0 {
            return Ok((empty, ToolChoice::Auto));
        }
        let mut definitions: Vec<ToolDefinition> = Vec::new();
        let mut i: usize = 0;
        while i < n
            invariant
                n == self.definitions@.len(),
                sv == self@,
                i <= n,
                checked_definitions(sv.definitions, i as int) == Ok::<Seq<ToolDefinitionView>, Option<Seq<char>>>(tools_view(definitions@)),
                n > 0,
                !(choice matches Some(ResponsesToolChoice::Named(ResponsesNamedToolChoice::WebSearch)) && options.responses_web_search
                    == WebSearchBehavior::Reject),
                !(choice matches Some(ResponsesToolChoice::Mode(ResponsesToolChoiceMode::Disabled))),
            decreases n - i,
        {
            assert(sv.definitions[i as int] == function_view(self.definitions@[i as int]));
            if self.repeats_exec(i) {
                proof {
                    lemma_checked_err(sv.definitions, i + 1, n as int);
                }
                return Err(ConversionError::bad_request("Tool names must be unique".to_string()));
            }
            if let Some(p) = &self.definitions[i].parameters {
                let path = crate::validation::concat3("Tool '", self.definitions[i].name.as_str(), "' parameters");
                if let Err(e) = validate_tool_parameters(p, path.as_str()) {
                    proof {
                        lemma_checked_err(sv.definitions, i + 1, n as int);
                    }
                    return Err(e);
                }
            }
            let ghost before = definitions@;
            let d = definition_from_function(&self.definitions[i]);
            definitions.push(d);
            assert(tools_view(definitions@) =~= tools_view(before).push(definition_of_function(sv.definitions[i as int])));
            i += 1;
        }
        let name = match &choice {
            Some(ResponsesToolChoice::Named(ResponsesNamedToolChoice::Function { name })) => Some(name),
            Some(ResponsesToolChoice::Named(ResponsesNamedToolChoice::Custom { name })) => Some(name),
            _ => None,
        };
        match name {
            Some(name) => {
                let mut found = false;
                let mut j: usize = 0;
                while j < n
                    invariant
                        n == self.definitions@.len(),
                        sv == self@,
                        j <= n,
                        found <==> exists|k: int| 0 <= k < j && #[trigger] sv.definitions[k].name == name@,
                    decreases n - j,
                {
                    assert(sv.definitions[j as int].name == self.definitions@[j as int].name@);
                    if crate::text::str_eq(self.definitions[j].name.as_str(), name.as_str()) {
                        found = true;
                    }
                    j += 1;
                }
                if !found {
                    return Err(ConversionError::bad_request(crate::validation::concat3("tool_choice: no tool named '", name.as_str(), "' was specified")));
                }
                if thinking {
                    return Err(ConversionError::bad_request("Thinking mode does not support this tool_choice".to_string()));
                }
                let ghost dv = tools_view(definitions@);
                let mut kept: Vec<ToolDefinition> = Vec::new();
                let mut k: usize = 0;
                while k < definitions.len()
                    invariant
                        k <= definitions@.len(),
                        dv == tools_view(definitions@),
                        tools_view(kept@) == named(dv.take(k as int), name@),
                    decreases definitions@.len() - k,
                {
                    let ghost before = kept@;
                    proof {
                        reveal(Seq::filter);
                        assert(dv.take(k + 1).drop_last() =~= dv.take(k as int));
                    }
                    if crate::text::str_eq(definitions[k].name.as_str(), name.as_str()) {
                        kept.push(definitions[k].duplicate());
                        assert(tools_view(kept@) =~= tools_view(before).push(dv[k as int]));
                    }
                    k += 1;
                }
                assert(dv.take(definitions@.len() as int) =~= dv);
                Ok((kept, ToolChoice::Required))
            },
            None => {
                if let Some(ResponsesToolChoice::Mode(ResponsesToolChoiceMode::Required)) = &choice {
                    if thinking {
                        return Err(ConversionError::bad_request("Thinking mode does not support this tool_choice".to_string()));
                    }
                    return Ok((definitions, ToolChoice::Required));
                }
                Ok((definitions, ToolChoice::Auto))
            },
        }
    }
}


// ---------------------------------------------------------------------------
// Laws

/// Whether the names given to namespaced functions are distinct from each
/// other and from the top-level function names.
pub open spec fn names_fresh(st: ToolSetView) -> bool {
    &&& given_names(st.namespace_names).no_duplicates()
    &&& forall|k: int| 0 <= k < st.namespace_names.len() ==> !st.top_level_names.contains(#[trigger] st.namespace_names[k].2)
}

/// Adding a name that is not taken keeps the given names fresh.
proof fn lemma_fresh_push(st: ToolSetView, entry: (Seq<char>, Seq<char>, Seq<char>))
    requires
        names_fresh(st),
        !taken_names(st).contains(entry.2),
    ensures
        names_fresh(ToolSetView { namespace_names: st.namespace_names.push(entry), ..st }),
{
    let g = given_names(st.namespace_names);
    let g2 = given_names(st.namespace_names.push(entry));
    assert(g2 =~= g.push(entry.2));
    assert forall|k: int| 0 <= k < g.len() implies #[trigger] g[k] != entry.2 by {
        assert(taken_names(st)[st.top_level_names.len() + k] == g[k]);
    }
    assert forall|x: int| 0 <= x < st.top_level_names.len() implies #[trigger] st.top_level_names[x] != entry.2 by {
        assert(taken_names(st)[x] == st.top_level_names[x]);
    }
    let st2 = ToolSetView { namespace_names: st.namespace_names.push(entry), ..st };
    assert forall|k: int| 0 <= k < st2.namespace_names.len() implies !st2.top_level_names.contains(#[trigger] st2.namespace_names[k].2) by {
        if k < st.namespace_names.len() {
            assert(st2.namespace_names[k] == st.namespace_names[k]);
        } else {
            if st2.top_level_names.contains(entry.2) {
                let x = choose|x: int| 0 <= x < st.top_level_names.len() && st.top_level_names[x] == entry.2;
                assert(st.top_level_names[x] != entry.2);
            }
        }
    }
}

/// The functions of a namespace keep the given names fresh.
proof fn lemma_namespace_fold_fresh(
    st: ToolSetView,
    namespace: Seq<char>,
    description: Option<Seq<char>>,
    inner: Seq<ResponsesNamespaceTool>,
    k: int,
    path: Seq<char>,
)
    requires
        names_fresh(st),
    ensures
        namespace_fold(st, namespace, description, inner, k, path) matches Ok(s) ==> names_fresh(s) && s.top_level_names
            == st.top_level_names,
    decreases k,
{
    if k > 0 {
        lemma_namespace_fold_fresh(st, namespace, description, inner, k - 1, path);
        if let Ok(s) = namespace_fold(st, namespace, description, inner, k - 1, path) {
            if let ResponsesNamespaceTool::Function(f) = inner[k - 1] {
                let given = unique_name_spec(joined(namespace, f.name@), taken_names(s));
                crate::text::lemma_unique_name_fresh(joined(namespace, f.name@), taken_names(s));
                lemma_fresh_push(s, (namespace, f.name@, given));
            }
        }
    }
}

/// The tools keep the given names fresh.
proof fn lemma_tools_fold_fresh(tools: Seq<ResponsesTool>, web_search: WebSearchBehavior, n: int)
    ensures
        tools_fold(tools, web_search, n) matches Ok(p) ==> names_fresh(p.0) && p.0.top_level_names == top_names(tools),
    decreases n,
{
    if n > 0 {
        lemma_tools_fold_fresh(tools, web_search, n - 1);
        if let Ok(p) = tools_fold(tools, web_search, n - 1) {
            if let ResponsesTool::Namespace { name, description, tools: inner } = tools[n - 1] {
                lemma_namespace_fold_fresh(p.0, name@, opt_view(description), inner@, inner@.len() as int, tools_path(n - 1));
            }
        }
    } else {
        let st = ToolSetView { definitions: Seq::empty(), namespace_names: Seq::empty(), top_level_names: top_names(tools) };
        assert(given_names(st.namespace_names) =~= Seq::<Seq<char>>::empty());
    }
}

/// Namespace expansion never makes two tools share a name: the name given
/// to each namespaced function differs from every top-level function name
/// and from the name given to every other namespaced function.
pub proof fn lemma_namespaced_names_unique(tools: Seq<ResponsesTool>, web_search: WebSearchBehavior)
    requires
        tool_set_spec(tools, web_search) is Ok,
    ensures
        names_fresh(tool_set_spec(tools, web_search)->Ok_0),
{
    lemma_tools_fold_fresh(tools, web_search, tools.len() as int);
}

/// A pair absent from the entries is found at the entry pushed for it.
proof fn lemma_lookup_push(
    entries: Seq<(Seq<char>, Seq<char>, Seq<char>)>,
    namespace: Seq<char>,
    name: Seq<char>,
    given: Seq<char>,
    i: int,
)
    requires
        0 <= i <= entries.len(),
        lookup_from(entries, namespace, name, i) is None,
    ensures
        lookup_from(entries.push((namespace, name, given)), namespace, name, i) == Some(given),
    decreases entries.len() - i,
{
    let e2 = entries.push((namespace, name, given));
    if i < entries.len() {
        assert(e2[i] == entries[i]);
        lemma_lookup_push(entries, namespace, name, given, i + 1);
    } else {
        assert(e2[i] == (namespace, name, given));
    }
}

/// Each historical namespace and name pair keeps one name: converting the
/// same historical call again gives the name it got the first time and
/// records nothing new.
pub proof fn lemma_historical_name_stable(
    set: ToolSetView,
    historical: Seq<(Seq<char>, Seq<char>, Seq<char>)>,
    namespace: Seq<char>,
    name: Seq<char>,
)
    ensures
        ({
            let first = call_name_spec(set, historical, Some(namespace), name);
            call_name_spec(set, first.1, Some(namespace), name) == first
        }),
{
    if lookup(set.namespace_names, namespace, name) is None && lookup(historical, namespace, name) is None {
        let given = unique_name_spec(joined(namespace, name), taken_names(set) + given_names(historical));
        lemma_lookup_push(historical, namespace, name, given, 0);
    }
}

} // verus!
