//! Tools the LLM can call: their configuration and the filling in of their parameters.
use vstd::prelude::*;
use crate::text_map::TextMap;

verus! {

broadcast use vstd::string::group_string_axioms;

/// Schema of one tool parameter.
#[derive(Debug, Clone)]
pub struct ParameterSchema {
    /// The JSON type of the parameter (`type` in the tools file)
    pub param_type: String,
    pub description: String,
}

/// HTTP request made by a tool with the `http` backend.
#[derive(Debug, Clone)]
pub struct HttpConfig {
    pub url: String,
    pub method: String,
    pub body: String,
}

/// A tool the LLM can call.
#[derive(Debug, Clone)]
pub struct ToolConfig {
    pub name: String,
    pub description: String,
    pub command: String,
    pub args: Vec<String>,
    /// "cli" (default) or "http"
    pub backend: String,
    pub http: Option<HttpConfig>,
    pub parameters: TextMap<ParameterSchema>,
}

/// The value of a parameter in a tool call.
#[derive(Debug, Clone)]
pub enum ParamValue {
    /// A JSON string
    Text(String),
    /// A JSON number, in its JSON text form
    Number(String),
    /// A JSON boolean
    Bool(bool),
    /// Any other JSON value (null, array, object)
    Other,
}

/// The `{name}` placeholders of a template, in order, as pairs of the whole placeholder and
/// the name, as the `regex` crate finds matches of `\{(\w+)\}` (non-overlapping, left to right).
pub uninterp spec fn placeholders(template: Seq<char>) -> Seq<(Seq<char>, Seq<char>)>;

/// Placeholders of a template (`regex::Regex::new` with `\{(\w+)\}`, then `captures_iter`).
/// That pattern is valid regex syntax far within regex's size limits, so `Regex::new` always
/// succeeds and the result is always `Some`.
#[verifier::external_body]
fn find_placeholders(template: &str) -> (r: Option<Vec<(String, String)>>)
    ensures
        r is Some,
        r matches Some(v) ==> v@.map_values(|c: (String, String)| (c.0@, c.1@)) == placeholders(template@),
        r matches Some(v) ==> forall|i: int| 0 <= i < v@.len() ==> #[trigger] v@[i].0@ == seq!['{'] + v@[i].1@ + seq!['}'] && v@[i].1@.len() > 0,
{
    let re = regex::Regex::new(r"\{(\w+)\}").ok()?;
    Some(re.captures_iter(template).map(|cap| (cap[0].to_string(), cap[1].to_string())).collect())
}

/// `s` with every non-overlapping occurrence of `pat`, from left to right, replaced by `rep`
/// (std `str::replace` for a non-empty pattern).
pub open spec fn replace_all(s: Seq<char>, pat: Seq<char>, rep: Seq<char>) -> Seq<char>
    decreases s.len(),
{
    if pat.len() == 0 || s.len() < pat.len() {
        s
    } else if s.subrange(0, pat.len() as int) == pat {
        rep + replace_all(s.subrange(pat.len() as int, s.len() as int), pat, rep)
    } else {
        seq![s[0]] + replace_all(s.drop_first(), pat, rep)
    }
}

/// Replace every occurrence of a non-empty pattern (std `str::replace`).
pub fn replace_str(s: &str, pat: &str, rep: &str) -> (r: String)
    requires
        pat@.len() > 0,
    ensures
        r@ == replace_all(s@, pat@, rep@),
{
    let x = crate::text::chars_of(s);
    let p = crate::text::chars_of(pat);
    let q = crate::text::chars_of(rep);
    let mut out: Vec<char> = Vec::new();
    let mut i: usize = 0;
    proof {
        assert(x@.subrange(0, x@.len() as int) =~= x@);
        assert(out@ + x@ =~= x@);
    }
    while i < x.len()
        invariant
            i <= x.len(),
            p@.len() > 0,
            x@ == s@,
            p@ == pat@,
            q@ == rep@,
            out@ + replace_all(x@.subrange(i as int, x@.len() as int), p@, q@) == replace_all(x@, p@, q@),
        decreases x.len() - i,
    {
        let ghost rest = x@.subrange(i as int, x@.len() as int);
        if crate::text::occurs_at_exec(&x, &p, i) {
            proof {
                assert(rest.subrange(0, p@.len() as int) =~= x@.subrange(i as int, i + p@.len()));
                assert(rest.subrange(p@.len() as int, rest.len() as int) =~= x@.subrange(i + p@.len(), x@.len() as int));
            }
            let ghost before = out@;
            let mut qq = crate::text::chars_of(rep);
            out.append(&mut qq);
            proof {
                assert(replace_all(rest, p@, q@) == q@ + replace_all(rest.subrange(p@.len() as int, rest.len() as int), p@, q@));
                assert(out@ == before + q@);
                assert(before + (q@ + replace_all(x@.subrange(i + p@.len(), x@.len() as int), p@, q@)) =~= out@ + replace_all(x@.subrange(i + p@.len(), x@.len() as int), p@, q@));
            }
            i += p.len();
        } else {
            proof {
                if rest.len() >= p@.len() {
                    assert(rest.subrange(0, p@.len() as int) =~= x@.subrange(i as int, i + p@.len()));
                }
                assert(rest.drop_first() =~= x@.subrange(i + 1, x@.len() as int));
                assert(replace_all(rest, p@, q@) == seq![x@[i as int]] + replace_all(rest.drop_first(), p@, q@));
            }
            let ghost before = out@;
            out.push(x[i]);
            proof {
                assert(before + (seq![x@[i as int]] + replace_all(x@.subrange(i + 1, x@.len() as int), p@, q@)) =~= out@ + replace_all(x@.subrange(i + 1, x@.len() as int), p@, q@));
            }
            i += 1;
        }
    }
    proof {
        assert(x@.subrange(x@.len() as int, x@.len() as int) =~= Seq::<char>::empty());
        assert(out@ + Seq::<char>::empty() =~= out@);
    }
    crate::text::string_from_chars(&out)
}


/// The content of a [`ParamValue`].
pub enum ParamView {
    Text(Seq<char>),
    Number(Seq<char>),
    Bool(bool),
    Other,
}

impl View for ParamValue {
    type V = ParamView;

    open spec fn view(&self) -> ParamView {
        match self {
            ParamValue::Text(s) => ParamView::Text(s@),
            ParamValue::Number(s) => ParamView::Number(s@),
            ParamValue::Bool(b) => ParamView::Bool(*b),
            ParamValue::Other => ParamView::Other,
        }
    }
}

/// The value of the first parameter with the given name.
pub open spec fn lookup_param(params: Seq<(Seq<char>, ParamView)>, name: Seq<char>) -> Option<ParamView>
    decreases params.len(),
{
    if params.len() == 0 {
        None
    } else if params[0].0 == name {
        Some(params[0].1)
    } else {
        lookup_param(params.drop_first(), name)
    }
}

/// The text a parameter value is substituted by, if it has one.
pub open spec fn param_text(v: ParamView) -> Option<Seq<char>> {
    match v {
        ParamView::Text(s) => Some(s),
        ParamView::Number(n) => Some(n),
        ParamView::Bool(b) => Some(if b { "true"@ } else { "false"@ }),
        ParamView::Other => None,
    }
}

/// Substituting the placeholders `caps`, in order, into `acc`.
pub open spec fn substitute(acc: Seq<char>, caps: Seq<(Seq<char>, Seq<char>)>, params: Seq<(Seq<char>, ParamView)>) -> Result<Seq<char>, Seq<char>>
    decreases caps.len(),
{
    if caps.len() == 0 {
        Ok(acc)
    } else {
        let name = caps[0].1;
        match lookup_param(params, name) {
            None => Err("Missing parameter: "@ + name),
            Some(v) => match param_text(v) {
                None => Err("Invalid parameter type for "@ + name),
                Some(t) => substitute(replace_all(acc, caps[0].0, t), caps.drop_first(), params),
            },
        }
    }
}

/// The parameters of a call, as views.
pub open spec fn params_view(params: Seq<(String, ParamValue)>) -> Seq<(Seq<char>, ParamView)> {
    params.map_values(|p: (String, ParamValue)| (p.0@, p.1@))
}

/// The value of the parameter with the given name.
fn find_param<'a>(params: &'a [(String, ParamValue)], name: &str) -> (r: Option<&'a ParamValue>)
    ensures
        match r {
            Some(v) => lookup_param(params_view(params@), name@) == Some(v@),
            None => lookup_param(params_view(params@), name@) is None,
        },
{
    let ghost pv = params_view(params@);
    let mut i: usize = 0;
    assert(pv.subrange(0, pv.len() as int) =~= pv);
    while i < params.len()
        invariant
            i <= params.len(),
            pv == params_view(params@),
            lookup_param(pv, name@) == lookup_param(pv.subrange(i as int, pv.len() as int), name@),
        decreases params.len() - i,
    {
        let ghost rest = pv.subrange(i as int, pv.len() as int);
        assert(rest[0] == (params@[i as int].0@, params@[i as int].1@));
        if crate::text::str_eq(params[i].0.as_str(), name) {
            return Some(&params[i].1);
        }
        assert(rest.drop_first() =~= pv.subrange(i + 1, pv.len() as int));
        i += 1;
    }
    None
}

/// Substitute `{param}` placeholders in a template with the call's parameter values.
///
/// Strings are used as they are, numbers in their JSON form, booleans as `true`/`false`.
/// A placeholder without a parameter, or with a parameter of another type, is an error.
pub fn substitute_params(template: &str, params: &[(String, ParamValue)]) -> (r: Result<String, String>)
    ensures
        match r {
            Ok(s) => substitute(template@, placeholders(template@), params_view(params@)) == Ok::<Seq<char>, Seq<char>>(s@),
            Err(e) => substitute(template@, placeholders(template@), params_view(params@)) == Err::<Seq<char>, Seq<char>>(e@),
        },
{
    let caps = match find_placeholders(template) {
        Some(c) => c,
        // unreachable: the pattern always compiles
        None => { return Err("invalid placeholder pattern".to_string()); },
    };
    let ghost cv = caps@.map_values(|c: (String, String)| (c.0@, c.1@));
    let mut result = template.to_string();
    let mut i: usize = 0;
    assert(cv.subrange(0, cv.len() as int) =~= cv);
    while i < caps.len()
        invariant
            i <= caps.len(),
            cv == caps@.map_values(|c: (String, String)| (c.0@, c.1@)),
            cv == placeholders(template@),
            forall|k: int| 0 <= k < caps@.len() ==> #[trigger] caps@[k].0@ == seq!['{'] + caps@[k].1@ + seq!['}'] && caps@[k].1@.len() > 0,
            substitute(template@, cv, params_view(params@)) == substitute(result@, cv.subrange(i as int, cv.len() as int), params_view(params@)),
        decreases caps.len() - i,
    {
        let ghost rest = cv.subrange(i as int, cv.len() as int);
        proof {
            assert(rest[0] == cv[i as int]);
            assert(rest.drop_first() =~= cv.subrange(i + 1, cv.len() as int));
        }
        let name = caps[i].1.as_str();
        let placeholder = caps[i].0.as_str();
        let value = match find_param(params, name) {
            Some(v) => v,
            None => { return Err(crate::text::concat("Missing parameter: ", name)); },
        };
        let value_str = match value {
            ParamValue::Text(s) => s.clone(),
            ParamValue::Number(n) => n.clone(),
            ParamValue::Bool(b) => if *b { "true".to_string() } else { "false".to_string() },
            ParamValue::Other => { return Err(crate::text::concat("Invalid parameter type for ", name)); },
        };
        result = replace_str(result.as_str(), placeholder, value_str.as_str());
        i += 1;
    }
    assert(cv.subrange(i as int, cv.len() as int) =~= Seq::<(Seq<char>, Seq<char>)>::empty());
    Ok(result)
}

/// How a tool is run.
#[derive(Debug, Clone, Copy)]
pub enum Backend {
    /// Launch a command
    Cli,
    /// Make an HTTP request
    Http,
}

/// The backend of a tool: `cli` when none is named, `cli` or `http` as named; any other name is
/// an error naming it.
pub fn tool_backend(tool: &ToolConfig) -> (r: Result<Backend, String>)
    ensures
        match r {
            Ok(Backend::Cli) => tool.backend@.len() == 0 || tool.backend@ == "cli"@,
            Ok(Backend::Http) => tool.backend@ == "http"@,
            Err(e) => tool.backend@.len() > 0 && tool.backend@ != "cli"@ && tool.backend@ != "http"@
                && e@ == "Unknown backend: "@ + tool.backend@,
        },
{
    if tool.backend.as_str().is_empty() || crate::text::str_eq(tool.backend.as_str(), "cli") {
        Ok(Backend::Cli)
    } else if crate::text::str_eq(tool.backend.as_str(), "http") {
        Ok(Backend::Http)
    } else {
        Err(crate::text::concat("Unknown backend: ", tool.backend.as_str()))
    }
}

/// The command-line arguments of a CLI tool call: each argument template with the call's
/// parameters substituted, or the error of the first argument that fails.
pub fn cli_tool_args(tool: &ToolConfig, params: &[(String, ParamValue)]) -> (r: Result<Vec<String>, String>)
    ensures
        r matches Ok(v) ==> v@.len() == tool.args@.len() && forall|i: int| 0 <= i < v@.len() ==>
            substitute(tool.args@[i]@, placeholders(tool.args@[i]@), params_view(params@)) == Ok::<Seq<char>, Seq<char>>(#[trigger] v@[i]@),
        r matches Err(e) ==> exists|i: int| 0 <= i < tool.args@.len()
            && substitute(tool.args@[i]@, placeholders(tool.args@[i]@), params_view(params@)) == Err::<Seq<char>, Seq<char>>(e@)
            && forall|j: int| 0 <= j < i ==>
            #[trigger] substitute(tool.args@[j]@, placeholders(tool.args@[j]@), params_view(params@)) is Ok,
{
    let mut out: Vec<String> = Vec::new();
    let mut i: usize = 0;
    while i < tool.args.len()
        invariant
            i <= tool.args.len(),
            out@.len() == i,
            forall|j: int| 0 <= j < i ==>
                substitute(tool.args@[j]@, placeholders(tool.args@[j]@), params_view(params@)) == Ok::<Seq<char>, Seq<char>>(#[trigger] out@[j]@),
        decreases tool.args.len() - i,
    {
        match substitute_params(tool.args[i].as_str(), params) {
            Ok(s) => out.push(s),
            Err(e) => {
                proof {
                    assert forall|j: int| 0 <= j < i implies #[trigger] substitute(
                        tool.args@[j]@,
                        placeholders(tool.args@[j]@),
                        params_view(params@),
                    ) is Ok by {
                        assert(substitute(tool.args@[j]@, placeholders(tool.args@[j]@), params_view(params@))
                            == Ok::<Seq<char>, Seq<char>>(out@[j]@));
                    }
                }
                return Err(e);
            },
        }
        i += 1;
    }
    Ok(out)
}

/// The definition of a tool offered to the LLM: a function with its name, description, and
/// parameters (each a string-typed field of an object schema, all required).
#[derive(Debug, Clone)]
pub struct ToolDefinition {
    pub name: String,
    pub description: String,
    /// Each parameter's name and schema, each name once
    pub parameters: Vec<(String, ParameterSchema)>,
}

/// Whether a definition describes a tool: same name and description, and exactly the tool's
/// parameters, each once, with their schemas.
pub open spec fn defines(d: ToolDefinition, t: ToolConfig) -> bool {
    &&& d.name@ == t.name@
    &&& d.description@ == t.description@
    &&& d.parameters@.len() == t.parameters@.len()
    &&& forall|i: int| 0 <= i < d.parameters@.len() ==> {
        &&& t.parameters@.contains_key(#[trigger] d.parameters@[i].0@)
        &&& t.parameters@[d.parameters@[i].0@].param_type@ == d.parameters@[i].1.param_type@
        &&& t.parameters@[d.parameters@[i].0@].description@ == d.parameters@[i].1.description@
    }
    &&& forall|k: Seq<char>| t.parameters@.contains_key(k) ==> exists|i: int|
        0 <= i < d.parameters@.len() && #[trigger] d.parameters@[i].0@ == k
    &&& forall|i: int, j: int| 0 <= i < j < d.parameters@.len() ==> #[trigger] d.parameters@[i].0@ != #[trigger] d.parameters@[j].0@
}

/// The definition of one tool.
pub fn tool_definition(tool: &ToolConfig) -> (d: ToolDefinition)
    ensures
        defines(d, *tool),
{
    let names = tool.parameters.keys();
    let mut params: Vec<(String, ParameterSchema)> = Vec::new();
    let mut i: usize = 0;
    while i < names.len()
        invariant
            i <= names@.len(),
            names@.len() == tool.parameters@.len(),
            forall|j: int| 0 <= j < names@.len() ==> tool.parameters@.contains_key(#[trigger] names@[j]@),
            params@.len() == i,
            forall|j: int| 0 <= j < i ==> {
                &&& #[trigger] params@[j].0@ == names@[j]@
                &&& tool.parameters@[names@[j]@].param_type@ == params@[j].1.param_type@
                &&& tool.parameters@[names@[j]@].description@ == params@[j].1.description@
            },
        decreases names.len() - i,
    {
        let schema = match tool.parameters.get(names[i].as_str()) {
            Some(s) => ParameterSchema { param_type: s.param_type.clone(), description: s.description.clone() },
            None => {
                // unreachable: every listed key has a schema
                assert(false);
                ParameterSchema { param_type: String::new(), description: String::new() }
            },
        };
        params.push((names[i].clone(), schema));
        i += 1;
    }
    proof {
        assert forall|k: Seq<char>| tool.parameters@.contains_key(k) implies exists|j: int|
            0 <= j < params@.len() && #[trigger] params@[j].0@ == k by {
            let j = choose|j: int| 0 <= j < names@.len() && #[trigger] names@[j]@ == k;
            assert(params@[j].0@ == k);
        }
        assert forall|a: int, b: int| 0 <= a < b < params@.len() implies #[trigger] params@[a].0@ != #[trigger] params@[b].0@ by {
            assert(names@[a]@ != names@[b]@);
        }
    }
    ToolDefinition { name: tool.name.clone(), description: tool.description.clone(), parameters: params }
}

/// The definitions of the tools, in order.
pub fn tool_definitions(tools: &[ToolConfig]) -> (r: Vec<ToolDefinition>)
    ensures
        r@.len() == tools@.len(),
        forall|i: int| 0 <= i < r@.len() ==> defines(#[trigger] r@[i], tools@[i]),
{
    let mut r: Vec<ToolDefinition> = Vec::new();
    let mut i: usize = 0;
    while i < tools.len()
        invariant
            i <= tools@.len(),
            r@.len() == i,
            forall|j: int| 0 <= j < i ==> defines(#[trigger] r@[j], tools@[j]),
        decreases tools.len() - i,
    {
        r.push(tool_definition(&tools[i]));
        i += 1;
    }
    r
}

/// The tool a call names: the first tool with that name, or an error naming it.
pub fn find_tool(tools: &[ToolConfig], name: &str) -> (r: Result<usize, String>)
    ensures
        match r {
            Ok(i) => i < tools@.len() && tools@[i as int].name@ == name@
                && forall|j: int| 0 <= j < i ==> #[trigger] tools@[j].name@ != name@,
            Err(e) => e@ == "Unknown tool: "@ + name@ && forall|j: int| 0 <= j < tools@.len() ==> #[trigger] tools@[j].name@ != name@,
        },
{
    let mut i: usize = 0;
    while i < tools.len()
        invariant
            i <= tools@.len(),
            forall|j: int| 0 <= j < i ==> #[trigger] tools@[j].name@ != name@,
        decreases tools.len() - i,
    {
        if crate::text::str_eq(tools[i].name.as_str(), name) {
            return Ok(i);
        }
        i += 1;
    }
    Err(crate::text::concat("Unknown tool: ", name))
}

/// HTTP methods a tool can use.
#[derive(Debug, Clone, Copy, PartialEq, Eq, Structural)]
pub enum HttpMethod {
    Post,
    Get,
}

/// The request an HTTP tool makes: its method (named in any case), URL and body. A tool without
/// an HTTP configuration, or with another method, is an error.
pub fn http_request(tool: &ToolConfig) -> (r: Result<(HttpMethod, String, String), String>)
    ensures
        match tool.http {
            None => r matches Err(e) && e@ == "HTTP backend requires http config"@,
            Some(h) => {
                let m = crate::text::uppercase(h.method@);
                match r {
                    Ok((method, url, body)) => url@ == h.url@ && body@ == h.body@ && (
                        (m == "POST"@ && method == HttpMethod::Post) || (m == "GET"@ && method == HttpMethod::Get)),
                    Err(e) => m != "POST"@ && m != "GET"@ && e@ == "Unsupported HTTP method: "@ + m,
                }
            },
        },
{
    let h = match &tool.http {
        Some(h) => h,
        None => return Err("HTTP backend requires http config".to_string()),
    };
    let m = crate::text::to_uppercase(h.method.as_str());
    let method = if crate::text::str_eq(m.as_str(), "POST") {
        HttpMethod::Post
    } else if crate::text::str_eq(m.as_str(), "GET") {
        HttpMethod::Get
    } else {
        return Err(crate::text::concat("Unsupported HTTP method: ", m.as_str()));
    };
    Ok((method, h.url.clone(), h.body.clone()))
}

/// The result message of a launched command-line tool.
pub fn launch_message(name: &str, pid: u32) -> (r: String)
    ensures
        r@ == "Launched: "@ + name@ + " (PID: "@ + crate::numbers::decimal(pid as nat) + ")"@,
{
    let a = crate::text::concat("Launched: ", name);
    let b = crate::text::concat(a.as_str(), " (PID: ");
    let n = crate::numbers::u64_to_decimal(pid as u64);
    let c = crate::text::concat(b.as_str(), n.as_str());
    crate::text::concat(c.as_str(), ")")
}

proof fn lemma_whole_placeholder(placeholder: Seq<char>, name: Seq<char>, b: bool)
    requires
        placeholder.len() > 0,
    ensures
        substitute(placeholder, seq![(placeholder, name)], seq![(name, ParamView::Bool(b))]) == Ok::<
            Seq<char>,
            Seq<char>,
        >(if b { "true"@ } else { "false"@ }),
{
    let params = seq![(name, ParamView::Bool(b))];
    let caps = seq![(placeholder, name)];
    let t: Seq<char> = if b { "true"@ } else { "false"@ };
    assert(lookup_param(params, name) == Some(ParamView::Bool(b)));
    assert(param_text(ParamView::Bool(b)) == Some(t));
    assert(placeholder.subrange(0, placeholder.len() as int) =~= placeholder);
    let rest = placeholder.subrange(placeholder.len() as int, placeholder.len() as int);
    assert(rest.len() == 0);
    assert(replace_all(rest, placeholder, t) == rest);
    assert(t + rest =~= t);
    assert(replace_all(placeholder, placeholder, t) == t);
    assert(caps.drop_first() =~= Seq::<(Seq<char>, Seq<char>)>::empty());
    assert(substitute(t, caps.drop_first(), params) == Ok::<Seq<char>, Seq<char>>(t));
}

/// A boolean parameter is substituted by the text of its value: a template that is just the
/// placeholder of a parameter holding `b` becomes `true` when `b` holds and `false` otherwise,
/// so the two values never give the same text.
pub proof fn law_boolean_parameter_text(placeholder: Seq<char>, name: Seq<char>, b: bool)
    requires
        placeholder.len() > 0,
    ensures
        substitute(placeholder, seq![(placeholder, name)], seq![(name, ParamView::Bool(b))]) == Ok::<
            Seq<char>,
            Seq<char>,
        >(if b { "true"@ } else { "false"@ }),
        substitute(placeholder, seq![(placeholder, name)], seq![(name, ParamView::Bool(true))])
            != substitute(placeholder, seq![(placeholder, name)], seq![(name, ParamView::Bool(false))]),
{
    reveal_strlit("true");
    reveal_strlit("false");
    lemma_whole_placeholder(placeholder, name, b);
    lemma_whole_placeholder(placeholder, name, true);
    lemma_whole_placeholder(placeholder, name, false);
    assert("true"@ != "false"@) by {
        assert("true"@.len() != "false"@.len());
    }
}

} // verus!
