//! `${NAME}` placeholders in the configuration, replaced by the values of
//! environment variables.
use crate::errors::{error_view, CliError, CliErrorView, ErrorCode};
use crate::json::JsonValue;
use crate::text::{cat2, cat3, first_index_of, join, join_strings, push_char, str_eq, string_of, views};
use vstd::prelude::*;
use vstd::string::*;

verus! {

/// The environment as name/value pairs.
pub open spec fn env_view(env: Seq<(String, String)>) -> Seq<(Seq<char>, Seq<char>)> {
    env.map_values(|e: (String, String)| (e.0@, e.1@))
}

/// The value of the first variable named `name`.
pub open spec fn env_lookup(env: Seq<(Seq<char>, Seq<char>)>, name: Seq<char>) -> Option<Seq<char>>
    decreases env.len(),
{
    if env.len() == 0 {
        None
    } else if env[0].0 == name {
        Some(env[0].1)
    } else {
        env_lookup(env.drop_first(), name)
    }
}

/// Facts about the first occurrence of a character.
pub proof fn lemma_first_index_facts(s: Seq<char>, c: char)
    ensures
        first_index_of(s, c) matches Some(k) ==> 0 <= k < s.len() && s[k] == c && forall|j: int|
            0 <= j < k ==> s[j] != c,
        first_index_of(s, c) is None ==> forall|j: int| 0 <= j < s.len() ==> s[j] != c,
{
    if exists|i: int| 0 <= i < s.len() && s[i] == c {
        let k = choose|i: int| 0 <= i < s.len() && s[i] == c && forall|j: int| 0 <= j < i ==> s[j] != c;
        let i0 = choose|i: int| 0 <= i < s.len() && s[i] == c;
        lemma_least_occurrence(s, c, i0);
    }
}

/// Where `c` occurs, it has a first occurrence.
proof fn lemma_least_occurrence(s: Seq<char>, c: char, i: int)
    requires
        0 <= i < s.len(),
        s[i] == c,
    ensures
        exists|k: int| 0 <= k < s.len() && s[k] == c && forall|j: int| 0 <= j < k ==> s[j] != c,
    decreases i,
{
    if exists|j: int| 0 <= j < i && s[j] == c {
        let j = choose|j: int| 0 <= j < i && s[j] == c;
        lemma_least_occurrence(s, c, j);
    } else {
        assert(forall|j: int| 0 <= j < i ==> s[j] != c);
    }
}

/// The length of the placeholder name at the start of `s`, where `s`
/// starts with `${`, a non-empty name without `}`, and `}`.
pub open spec fn placeholder_len(s: Seq<char>) -> Option<int> {
    if s.len() >= 2 && s[0] == '$' && s[1] == '{' {
        match first_index_of(s.skip(2), '}') {
            Some(k) => if k >= 1 {
                Some(k)
            } else {
                None
            },
            None => None,
        }
    } else {
        None
    }
}

/// `s` with each placeholder, read left to right, replaced by the value of
/// its variable (or nothing where the variable is not set), and the names
/// of the variables that are not set, in order.
#[verifier::opaque]
pub open spec fn substitute_scan(s: Seq<char>, env: Seq<(Seq<char>, Seq<char>)>) -> (Seq<char>, Seq<Seq<char>>)
    decreases s.len(),
{
    if s.len() == 0 {
        (seq![], seq![])
    } else {
        match placeholder_len(s) {
            Some(k) => {
                proof {
                    lemma_first_index_facts(s.skip(2), '}');
                }
                let name = s.subrange(2, 2 + k);
                let rest = substitute_scan(s.skip(3 + k), env);
                match env_lookup(env, name) {
                    Some(v) => (v + rest.0, rest.1),
                    None => (rest.0, seq![name] + rest.1),
                }
            },
            None => {
                let rest = substitute_scan(s.drop_first(), env);
                (seq![s[0]] + rest.0, rest.1)
            },
        }
    }
}

/// The text that names the missing variables.
pub open spec fn missing_message(missing: Seq<Seq<char>>) -> Seq<char> {
    "Missing environment variable"@ + (if missing.len() > 1 {
        "s"@
    } else {
        ""@
    }) + ": "@ + join(missing.map_values(|m: Seq<char>| "${"@ + m + "}"@), ", "@)
}

/// The error for missing variables in strict mode.
pub open spec fn missing_env_error(missing: Seq<Seq<char>>) -> CliErrorView {
    error_view(
        ErrorCode::ClientError,
        "MISSING_ENV_VAR"@,
        missing_message(missing),
        Some("Referenced in config but not set in environment"@),
        Some(
            "Set the variable(s) before running: export "@ + missing[0]
                + "=\"value\" or set MCP_STRICT_ENV=false to use empty values"@,
        ),
    )
}

/// The value of the first variable named `name`.
fn lookup_env(env: &[(String, String)], name: &str) -> (r: Option<String>)
    ensures
        crate::json::opt_text(r) == env_lookup(env_view(env@), name@),
{
    let mut i: usize = 0;
    assert(env_view(env@).skip(0) == env_view(env@));
    while i < env.len()
        invariant
            i <= env.len(),
            env_lookup(env_view(env@).skip(i as int), name@) == env_lookup(env_view(env@), name@),
        decreases env.len() - i,
    {
        assert(env_view(env@).skip(i as int)[0] == (env@[i as int].0@, env@[i as int].1@));
        assert(env_view(env@).skip(i as int).drop_first() == env_view(env@).skip(i + 1));
        if str_eq(env[i].0.as_str(), name) {
            return Some(env[i].1.clone());
        }
        i = i + 1;
    }
    assert(env_view(env@).skip(i as int).len() == 0);
    None
}

/// The index of the first `}` at or after `from`.
fn find_close(v: &Vec<char>, from: usize) -> (r: Option<usize>)
    requires
        from <= v.len(),
    ensures
        match r {
            Some(j) => first_index_of(v@.skip(from as int), '}') == Some(j - from) && from <= j
                < v.len(),
            None => first_index_of(v@.skip(from as int), '}') is None,
        },
{
    let mut j = from;
    while j < v.len()
        invariant
            from <= j <= v.len(),
            forall|k: int| from <= k < j ==> v@[k] != '}',
        decreases v.len() - j,
    {
        if v[j] == '}' {
            proof {
                crate::text::lemma_first_index_of(v@.skip(from as int), '}', j - from);
            }
            return Some(j);
        }
        j = j + 1;
    }
    proof {
        crate::text::lemma_first_index_of_none(v@.skip(from as int), '}');
    }
    None
}

/// One placeholder step of the scan.
proof fn lemma_scan_placeholder(s: Seq<char>, env: Seq<(Seq<char>, Seq<char>)>, k: int)
    requires
        placeholder_len(s) == Some(k),
        0 < k,
        3 + k <= s.len(),
    ensures
        substitute_scan(s, env) == (match env_lookup(env, s.subrange(2, 2 + k)) {
            Some(v) => (v + substitute_scan(s.skip(3 + k), env).0, substitute_scan(
                s.skip(3 + k),
                env,
            ).1),
            None => (substitute_scan(s.skip(3 + k), env).0, seq![s.subrange(2, 2 + k)]
                + substitute_scan(s.skip(3 + k), env).1),
        }),
{
    reveal(substitute_scan);
}

/// One plain-character step of the scan.
proof fn lemma_scan_plain(s: Seq<char>, env: Seq<(Seq<char>, Seq<char>)>)
    requires
        s.len() > 0,
        placeholder_len(s) is None,
    ensures
        substitute_scan(s, env) == (seq![s[0]] + substitute_scan(s.drop_first(), env).0,
            substitute_scan(s.drop_first(), env).1),
{
    reveal(substitute_scan);
}

/// The scan of no text.
proof fn lemma_scan_empty(s: Seq<char>, env: Seq<(Seq<char>, Seq<char>)>)
    requires
        s.len() == 0,
    ensures
        substitute_scan(s, env) == (Seq::<char>::empty(), Seq::<Seq<char>>::empty()),
{
    reveal(substitute_scan);
}

/// The names in an optional missing name.
pub open spec fn opt_seq(o: Option<String>) -> Seq<Seq<char>> {
    match o {
        Some(n) => seq![n@],
        None => seq![],
    }
}

/// Reads one step at index `i`: a placeholder (replaced by its value, or
/// reported as missing) or one plain character. Gives the index after the
/// step, the text it produces and the missing name, if any.
#[verifier::rlimit(100)]
fn substitute_step(v: &Vec<char>, i: usize, env: &[(String, String)]) -> (r: (usize, String, Option<String>))
    requires
        i < v.len(),
    ensures
        i < r.0 <= v.len(),
        substitute_scan(v@.skip(i as int), env_view(env@)) == (
            r.1@ + substitute_scan(v@.skip(r.0 as int), env_view(env@)).0,
            opt_seq(r.2) + substitute_scan(v@.skip(r.0 as int), env_view(env@)).1,
        ),
{
    let ghost rest = v@.skip(i as int);
    if v[i] == '$' && i + 1 < v.len() && v[i + 1] == '{' {
        assert(rest[0] == '$' && rest[1] == '{');
        assert(rest.skip(2) == v@.skip(i + 2));
        if let Some(j) = find_close(v, i + 2) {
            if j > i + 2 {
                let k = j - (i + 2);
                proof {
                    lemma_first_index_facts(rest.skip(2), '}');
                }
                assert(placeholder_len(rest) == Some(k as int));
                let name = crate::text::string_from_chars(v, i + 2, j);
                assert(name@ == rest.subrange(2, 2 + k));
                assert(rest.skip(3 + k) == v@.skip(j + 1));
                proof {
                    lemma_scan_placeholder(rest, env_view(env@), k as int);
                }
                return match lookup_env(env, name.as_str()) {
                    Some(val) => (j + 1, val, None),
                    None => {
                        assert(opt_seq(Some(name)) == seq![name@]);
                        (j + 1, String::new(), Some(name))
                    },
                };
            }
        }
    }
    assert(placeholder_len(rest) is None);
    assert(rest.drop_first() == v@.skip(i + 1));
    proof {
        lemma_scan_plain(rest, env_view(env@));
    }
    let mut piece = String::new();
    push_char(&mut piece, v[i]);
    (i + 1, piece, None)
}

/// The substituted text of `s` and the names of the variables that are not set.
pub fn substitute_text(s: &str, env: &[(String, String)]) -> (r: (String, Vec<String>))
    ensures
        r.0@ == substitute_scan(s@, env_view(env@)).0,
        views(r.1@) == substitute_scan(s@, env_view(env@)).1,
{
    let ghost e = env_view(env@);
    let v = crate::text::chars_of(s);
    let mut out = String::new();
    let mut missing: Vec<String> = Vec::new();
    let mut i: usize = 0;
    assert(v@.skip(0) == v@);
    while i < v.len()
        invariant
            v@ == s@,
            e == env_view(env@),
            i <= v.len(),
            substitute_scan(s@, e) == (
                out@ + substitute_scan(v@.skip(i as int), e).0,
                views(missing@) + substitute_scan(v@.skip(i as int), e).1,
            ),
        decreases v.len() - i,
    {
        let (next, piece, miss) = substitute_step(&v, i, env);
        out.append(piece.as_str());
        match miss {
            Some(name) => {
                let ghost before = missing@;
                missing.push(name);
                assert(views(missing@) == views(before).push(name@));
            },
            None => {},
        }
        i = next;
    }
    proof {
        lemma_scan_empty(v@.skip(i as int), e);
    }
    (out, missing)
}

/// The text that names the missing variables.
fn missing_message_exec(missing: &Vec<String>) -> (r: String)
    ensures
        r@ == missing_message(views(missing@)),
{
    let mut listed: Vec<String> = Vec::new();
    let mut i: usize = 0;
    while i < missing.len()
        invariant
            i <= missing.len(),
            views(listed@) == views(missing@).take(i as int).map_values(
                |m: Seq<char>| "${"@ + m + "}"@,
            ),
        decreases missing.len() - i,
    {
        let ghost before = listed@;
        let item = cat3("${", missing[i].as_str(), "}");
        listed.push(item);
        assert(views(listed@) == views(before).push(item@));
        assert(views(missing@).take(i + 1).map_values(|m: Seq<char>| "${"@ + m + "}"@) == views(
            missing@,
        ).take(i as int).map_values(|m: Seq<char>| "${"@ + m + "}"@).push(
            "${"@ + missing@[i as int]@ + "}"@,
        ));
        i = i + 1;
    }
    assert(views(missing@).take(missing.len() as int) == views(missing@));
    let plural = if missing.len() > 1 {
        "s"
    } else {
        ""
    };
    let list = join_strings(listed.as_slice(), ", ");
    let mut r = cat3("Missing environment variable", plural, ": ");
    r.append(list.as_str());
    r
}

/// The outcome of substituting one text: the text and, where variables are
/// missing and the mode is not strict, the warning to show; in strict mode
/// missing variables are an error.
pub open spec fn substitution_outcome(s: Seq<char>, env: Seq<(Seq<char>, Seq<char>)>, strict: bool) -> Result<(Seq<char>, Option<Seq<char>>), CliErrorView> {
    let (out, missing) = substitute_scan(s, env);
    if missing.len() == 0 {
        Ok((out, None))
    } else if strict {
        Err(missing_env_error(missing))
    } else {
        Ok((out, Some(missing_message(missing))))
    }
}

/// No `${` opens a placeholder anywhere in `s`.
pub open spec fn has_no_opening(s: Seq<char>) -> bool {
    forall|i: int| 0 <= i < s.len() - 1 ==> !(#[trigger] s[i] == '$' && s[i + 1] == '{')
}

/// Law: a text without `${` comes out unchanged, with nothing missing, in
/// either mode.
pub proof fn law_plain_text_unchanged(s: Seq<char>, env: Seq<(Seq<char>, Seq<char>)>, strict: bool)
    requires
        has_no_opening(s),
    ensures
        substitution_outcome(s, env, strict) == Ok::<(Seq<char>, Option<Seq<char>>), CliErrorView>(
            (s, None),
        ),
{
    lemma_scan_plain_text(s, env);
}

proof fn lemma_scan_plain_text(s: Seq<char>, env: Seq<(Seq<char>, Seq<char>)>)
    requires
        has_no_opening(s),
    ensures
        substitute_scan(s, env) == (s, Seq::<Seq<char>>::empty()),
    decreases s.len(),
{
    if s.len() == 0 {
        lemma_scan_empty(s, env);
    } else {
        if s.len() >= 2 {
            assert(!(s[0] == '$' && s[1] == '{'));
        }
        assert(placeholder_len(s) is None);
        assert(has_no_opening(s.drop_first())) by {
            assert forall|i: int| 0 <= i < s.drop_first().len() - 1 implies !(#[trigger] s.drop_first()[i]
                == '$' && s.drop_first()[i + 1] == '{') by {
                assert(s.drop_first()[i] == s[i + 1]);
                assert(s.drop_first()[i + 1] == s[i + 2]);
            }
        }
        lemma_scan_plain_text(s.drop_first(), env);
        lemma_scan_plain(s, env);
        assert(seq![s[0]] + s.drop_first() == s);
    }
}

/// Law: a text that is one placeholder of a variable that is set becomes
/// that variable's value, with nothing missing, in either mode.
pub proof fn law_placeholder_replaced(
    name: Seq<char>,
    env: Seq<(Seq<char>, Seq<char>)>,
    strict: bool,
)
    requires
        name.len() > 0,
        forall|i: int| 0 <= i < name.len() ==> name[i] != '}',
        env_lookup(env, name) is Some,
    ensures
        substitution_outcome("${"@ + name + "}"@, env, strict) == Ok::<
            (Seq<char>, Option<Seq<char>>),
            CliErrorView,
        >((env_lookup(env, name)->0, None)),
{
    reveal_strlit("${");
    reveal_strlit("}");
    let s = "${"@ + name + "}"@;
    let k = name.len() as int;
    assert(s.skip(2) == name + seq!['}']);
    lemma_first_close(name);
    assert(placeholder_len(s) == Some(k));
    assert(s.subrange(2, 2 + k) == name);
    assert(s.skip(3 + k).len() == 0);
    lemma_scan_empty(s.skip(3 + k), env);
    lemma_scan_placeholder(s, env, k);
}

/// The first `}` of `name` followed by `}` is the last character.
proof fn lemma_first_close(name: Seq<char>)
    requires
        forall|i: int| 0 <= i < name.len() ==> name[i] != '}',
    ensures
        first_index_of(name + seq!['}'], '}') == Some(name.len() as int),
{
    let t = name + seq!['}'];
    assert(t[name.len() as int] == '}');
    lemma_first_index_facts(t, '}');
    if let Some(j) = first_index_of(t, '}') {
        if j < name.len() {
            assert(t[j] == name[j]);
        }
        if j > name.len() {
            assert(t[name.len() as int] != '}');
        }
    }
}

/// Replaces the placeholders of `value` by the values in `env`.
pub fn substitute_env_vars(value: &str, env: &[(String, String)], strict: bool) -> (r: Result<(String, Option<String>), CliError>)
    ensures
        match r {
            Ok((t, w)) => substitution_outcome(value@, env_view(env@), strict) == Ok::<
                (Seq<char>, Option<Seq<char>>),
                CliErrorView,
            >((t@, crate::json::opt_text(w))),
            Err(e) => substitution_outcome(value@, env_view(env@), strict) == Err::<
                (Seq<char>, Option<Seq<char>>),
                CliErrorView,
            >(e@),
        },
{
    let (out, missing) = substitute_text(value, env);
    if missing.len() == 0 {
        return Ok((out, None));
    }
    let message = missing_message_exec(&missing);
    if strict {
        assert(views(missing@)[0] == missing@[0]@);
        let suggestion = cat3(
            "Set the variable(s) before running: export ",
            missing[0].as_str(),
            "=\"value\" or set MCP_STRICT_ENV=false to use empty values",
        );
        return Err(
            CliError {
                code: ErrorCode::ClientError,
                error_type: string_of("MISSING_ENV_VAR"),
                message,
                details: Some(string_of("Referenced in config but not set in environment")),
                suggestion: Some(suggestion),
            },
        );
    }
    Ok((out, Some(message)))
}

// ============================================================================
// Placeholders throughout a JSON document
// ============================================================================

/// The string values of a document, in the order they are visited: array
/// elements in order, object members in order.
pub open spec fn json_strings(v: JsonValue) -> Seq<Seq<char>>
    decreases v,
{
    match v {
        JsonValue::Str(s) => seq![s@],
        JsonValue::Array(a) => strings_of_values(a@),
        JsonValue::Object(m) => strings_of_members(m@),
        _ => seq![],
    }
}

/// The strings of the values, in order, at any depth.
pub open spec fn strings_of_values(vs: Seq<JsonValue>) -> Seq<Seq<char>>
    decreases vs,
{
    if vs.len() == 0 {
        seq![]
    } else {
        json_strings(vs[0]) + strings_of_values(vs.drop_first())
    }
}

/// The strings of the member values, in order, at any depth.
pub open spec fn strings_of_members(ms: Seq<(String, JsonValue)>) -> Seq<Seq<char>>
    decreases ms,
{
    if ms.len() == 0 {
        seq![]
    } else {
        json_strings(ms[0].1) + strings_of_members(ms.drop_first())
    }
}

/// `new` is `old` with each string replaced by its substitution; everything
/// else, the member names included, is unchanged.
pub open spec fn substituted(old: JsonValue, new: JsonValue, env: Seq<(Seq<char>, Seq<char>)>) -> bool
    decreases old,
{
    match old {
        JsonValue::Str(s) => new matches JsonValue::Str(t) && t@ == substitute_scan(s@, env).0,
        JsonValue::Array(a) => new matches JsonValue::Array(b) && b@.len() == a@.len() && forall|
            i: int,
        |
            0 <= i < a@.len() ==> substituted(a@[i], #[trigger] b@[i], env),
        JsonValue::Object(m) => new matches JsonValue::Object(n) && n@.len() == m@.len() && forall|
            i: int,
        |
            0 <= i < m@.len() ==> (#[trigger] n@[i]).0@ == m@[i].0@ && substituted(
                m@[i].1,
                n@[i].1,
                env,
            ),
        JsonValue::Null => new is Null,
        JsonValue::Bool(x) => new == JsonValue::Bool(x),
        JsonValue::Number(x) => new matches JsonValue::Number(y) && y@ == x@,
    }
}

/// The warnings for the texts `strs` in non-strict mode: one per text that
/// names missing variables, in order.
pub open spec fn warnings_of(strs: Seq<Seq<char>>, env: Seq<(Seq<char>, Seq<char>)>) -> Seq<Seq<char>>
    decreases strs.len(),
{
    if strs.len() == 0 {
        seq![]
    } else {
        let w = warnings_of(strs.drop_last(), env);
        let missing = substitute_scan(strs.last(), env).1;
        if missing.len() > 0 {
            w.push(missing_message(missing))
        } else {
            w
        }
    }
}

/// The missing variables of the first text among `strs` that names any.
pub open spec fn first_missing(strs: Seq<Seq<char>>, env: Seq<(Seq<char>, Seq<char>)>) -> Option<Seq<Seq<char>>>
    decreases strs.len(),
{
    if strs.len() == 0 {
        None
    } else if first_missing(strs.drop_last(), env) is Some {
        first_missing(strs.drop_last(), env)
    } else if substitute_scan(strs.last(), env).1.len() > 0 {
        Some(substitute_scan(strs.last(), env).1)
    } else {
        None
    }
}

/// The warnings of two runs of strings are the warnings of each.
pub proof fn lemma_warnings_concat(x: Seq<Seq<char>>, y: Seq<Seq<char>>, env: Seq<(Seq<char>, Seq<char>)>)
    ensures
        warnings_of(x + y, env) == warnings_of(x, env) + warnings_of(y, env),
    decreases y.len(),
{
    if y.len() == 0 {
        assert(x + y == x);
    } else {
        lemma_warnings_concat(x, y.drop_last(), env);
        assert((x + y).drop_last() == x + y.drop_last());
        assert((x + y).last() == y.last());
    }
}

/// The first missing variable of two runs of strings.
pub proof fn lemma_first_missing_concat(x: Seq<Seq<char>>, y: Seq<Seq<char>>, env: Seq<(Seq<char>, Seq<char>)>)
    ensures
        first_missing(x + y, env) == if first_missing(x, env) is Some {
            first_missing(x, env)
        } else {
            first_missing(y, env)
        },
    decreases y.len(),
{
    if y.len() == 0 {
        assert(x + y == x);
    } else {
        lemma_first_missing_concat(x, y.drop_last(), env);
        assert((x + y).drop_last() == x + y.drop_last());
        assert((x + y).last() == y.last());
    }
}

/// The strings of values after one more value.
pub proof fn lemma_strings_of_values_push(vs: Seq<JsonValue>, x: JsonValue)
    ensures
        strings_of_values(vs.push(x)) == strings_of_values(vs) + json_strings(x),
    decreases vs.len(),
{
    if vs.len() == 0 {
        assert(vs.push(x).drop_first() == Seq::<JsonValue>::empty());
        assert(strings_of_values(Seq::<JsonValue>::empty()) == Seq::<Seq<char>>::empty());
        assert(json_strings(x) + Seq::<Seq<char>>::empty() == json_strings(x));
    } else {
        lemma_strings_of_values_push(vs.drop_first(), x);
        assert(vs.push(x).drop_first() == vs.drop_first().push(x));
        assert(vs.push(x)[0] == vs[0]);
    }
}

/// The strings of members after one more member.
pub proof fn lemma_strings_of_members_push(ms: Seq<(String, JsonValue)>, x: (String, JsonValue))
    ensures
        strings_of_members(ms.push(x)) == strings_of_members(ms) + json_strings(x.1),
    decreases ms.len(),
{
    if ms.len() == 0 {
        assert(ms.push(x).drop_first() == Seq::<(String, JsonValue)>::empty());
        assert(strings_of_members(Seq::<(String, JsonValue)>::empty()) == Seq::<Seq<char>>::empty());
        assert(json_strings(x.1) + Seq::<Seq<char>>::empty() == json_strings(x.1));
    } else {
        lemma_strings_of_members_push(ms.drop_first(), x);
        assert(ms.push(x).drop_first() == ms.drop_first().push(x));
        assert(ms.push(x)[0] == ms[0]);
    }
}

/// What substituting a whole document does to the warnings and whether it
/// fails, given the warnings so far.
pub open spec fn document_outcome(
    old: JsonValue,
    r: Result<JsonValue, CliErrorView>,
    warnings_before: Seq<Seq<char>>,
    warnings_after: Seq<Seq<char>>,
    env: Seq<(Seq<char>, Seq<char>)>,
    strict: bool,
) -> bool {
    match r {
        Ok(new) => substituted(old, new, env) && (if strict {
            warnings_after == warnings_before && first_missing(json_strings(old), env) is None
        } else {
            warnings_after == warnings_before + warnings_of(json_strings(old), env)
        }),
        Err(e) => strict && (first_missing(json_strings(old), env) matches Some(m) && e
            == missing_env_error(m)),
    }
}

/// The outcome with its error taken by its view.
pub open spec fn result_view(r: Result<JsonValue, CliError>) -> Result<JsonValue, CliErrorView> {
    match r {
        Ok(v) => Ok(v),
        Err(e) => Err(e@),
    }
}

/// Replaces the placeholders in every string of `value`, collecting the
/// warnings for missing variables (non-strict mode) in `warnings`.
pub fn substitute_in(
    value: &JsonValue,
    env: &[(String, String)],
    strict: bool,
    warnings: &mut Vec<String>,
) -> (r: Result<JsonValue, CliError>)
    ensures
        document_outcome(
            *value,
            result_view(r),
            views(old(warnings)@),
            views(final(warnings)@),
            env_view(env@),
            strict,
        ),
    decreases value,
{
    let ghost e = env_view(env@);
    match value {
        JsonValue::Str(s) => {
            match substitute_env_vars(s.as_str(), env, strict) {
                Ok((t, w)) => {
                    let ghost missing = substitute_scan(s@, e).1;
                    assert(json_strings(*value) == seq![s@]);
                    assert(seq![s@].drop_last() == Seq::<Seq<char>>::empty());
                    assert(first_missing(Seq::<Seq<char>>::empty(), e) is None);
                    assert(warnings_of(Seq::<Seq<char>>::empty(), e) == Seq::<Seq<char>>::empty());
                    assert(seq![s@].last() == s@);
                    let ghost before = views(warnings@);
                    if let Some(msg) = w {
                        let ghost b = warnings@;
                        warnings.push(msg);
                        assert(views(warnings@) == views(b).push(msg@));
                        assert(views(warnings@) == before + seq![msg@]);
                    } else {
                        assert(views(warnings@) == before + Seq::<Seq<char>>::empty());
                    }
                    Ok(JsonValue::Str(t))
                },
                Err(err) => {
                    assert(json_strings(*value) == seq![s@]);
                    assert(seq![s@].drop_last() == Seq::<Seq<char>>::empty());
                    assert(first_missing(Seq::<Seq<char>>::empty(), e) is None);
                    Err(err)
                },
            }
        },
        JsonValue::Array(a) => {
            let mut out: Vec<JsonValue> = Vec::new();
            let mut i: usize = 0;
            let ghost w0 = views(warnings@);
            assert(a@.take(0) == Seq::<JsonValue>::empty());
            while i < a.len()
                invariant
                    *value == JsonValue::Array(*a),
                    e == env_view(env@),
                    i <= a.len(),
                    out@.len() == i,
                    forall|j: int| 0 <= j < i ==> substituted(a@[j], #[trigger] out@[j], e),
                    strict ==> first_missing(strings_of_values(a@.take(i as int)), e) is None,
                    if strict {
                        views(warnings@) == w0
                    } else {
                        views(warnings@) == w0 + warnings_of(strings_of_values(a@.take(i as int)), e)
                    },
                decreases a.len() - i,
            {
                let ghost wi = views(warnings@);
                proof {
                    assert(a@.take(i + 1) == a@.take(i as int).push(a@[i as int]));
                    lemma_strings_of_values_push(a@.take(i as int), a@[i as int]);
                    lemma_warnings_concat(
                        strings_of_values(a@.take(i as int)),
                        json_strings(a@[i as int]),
                        e,
                    );
                    lemma_first_missing_concat(
                        strings_of_values(a@.take(i as int)),
                        json_strings(a@[i as int]),
                        e,
                    );
                }
                proof {
                    assert(decreases_to!(*value => (*value)->Array_0));
                    assert((*value)->Array_0 == *a);
                    assert(decreases_to!(*a => a@));
                    assert(decreases_to!(a@ => a@[i as int]));
                    assert(decreases_to!(*value => a@[i as int]));
                }
                match substitute_in(&a[i], env, strict, warnings) {
                    Ok(nv) => {
                        out.push(nv);
                    },
                    Err(err) => {
                        proof {
                            assert(a@.take(a@.len() as int) == a@);
                            lemma_strings_prefix_missing(a@, i as int, e);
                        }
                        return Err(err);
                    },
                }
                i = i + 1;
            }
            assert(a@.take(a@.len() as int) == a@);
            Ok(JsonValue::Array(out))
        },
        JsonValue::Object(m) => {
            let mut out: Vec<(String, JsonValue)> = Vec::new();
            let mut i: usize = 0;
            let ghost w0 = views(warnings@);
            assert(m@.take(0) == Seq::<(String, JsonValue)>::empty());
            while i < m.len()
                invariant
                    *value == JsonValue::Object(*m),
                    e == env_view(env@),
                    i <= m.len(),
                    out@.len() == i,
                    forall|j: int|
                        0 <= j < i ==> (#[trigger] out@[j]).0@ == m@[j].0@ && substituted(
                            m@[j].1,
                            out@[j].1,
                            e,
                        ),
                    strict ==> first_missing(strings_of_members(m@.take(i as int)), e) is None,
                    if strict {
                        views(warnings@) == w0
                    } else {
                        views(warnings@) == w0 + warnings_of(strings_of_members(m@.take(i as int)), e)
                    },
                decreases m.len() - i,
            {
                proof {
                    assert(m@.take(i + 1) == m@.take(i as int).push(m@[i as int]));
                    lemma_strings_of_members_push(m@.take(i as int), m@[i as int]);
                    lemma_warnings_concat(
                        strings_of_members(m@.take(i as int)),
                        json_strings(m@[i as int].1),
                        e,
                    );
                    lemma_first_missing_concat(
                        strings_of_members(m@.take(i as int)),
                        json_strings(m@[i as int].1),
                        e,
                    );
                }
                proof {
                    assert(decreases_to!(*value => (*value)->Object_0));
                    assert((*value)->Object_0 == *m);
                    assert(decreases_to!(*m => m@));
                    assert(decreases_to!(m@ => m@[i as int]));
                    assert(decreases_to!(m@[i as int] => m@[i as int].1));
                    assert(decreases_to!(*value => m@[i as int].1));
                }
                match substitute_in(&m[i].1, env, strict, warnings) {
                    Ok(nv) => {
                        out.push((m[i].0.clone(), nv));
                    },
                    Err(err) => {
                        proof {
                            lemma_members_prefix_missing(m@, i as int, e);
                        }
                        return Err(err);
                    },
                }
                i = i + 1;
            }
            assert(m@.take(m@.len() as int) == m@);
            Ok(JsonValue::Object(out))
        },
        _ => {
            assert(json_strings(*value) == Seq::<Seq<char>>::empty());
            assert(warnings_of(Seq::<Seq<char>>::empty(), e) == Seq::<Seq<char>>::empty());
            assert(views(warnings@) + Seq::<Seq<char>>::empty() == views(warnings@));
            match value {
                JsonValue::Bool(b) => Ok(JsonValue::Bool(*b)),
                JsonValue::Number(n) => Ok(JsonValue::Number(n.clone())),
                _ => Ok(JsonValue::Null),
            }
        },
    }
}

/// A missing variable found in an element is the first of the whole array
/// when the elements before it had none.
proof fn lemma_strings_prefix_missing(a: Seq<JsonValue>, i: int, env: Seq<(Seq<char>, Seq<char>)>)
    requires
        0 <= i < a.len(),
        first_missing(strings_of_values(a.take(i)), env) is None,
    ensures
        first_missing(strings_of_values(a), env) == if first_missing(json_strings(a[i]), env) is Some {
            first_missing(json_strings(a[i]), env)
        } else {
            first_missing(strings_of_values(a.skip(i + 1)), env)
        },
{
    lemma_strings_of_values_split(a, i);
    lemma_first_missing_concat(strings_of_values(a.take(i)), json_strings(a[i]) + strings_of_values(a.skip(i + 1)), env);
    lemma_first_missing_concat(json_strings(a[i]), strings_of_values(a.skip(i + 1)), env);
}

proof fn lemma_members_prefix_missing(m: Seq<(String, JsonValue)>, i: int, env: Seq<(Seq<char>, Seq<char>)>)
    requires
        0 <= i < m.len(),
        first_missing(strings_of_members(m.take(i)), env) is None,
    ensures
        first_missing(strings_of_members(m), env) == if first_missing(json_strings(m[i].1), env) is Some {
            first_missing(json_strings(m[i].1), env)
        } else {
            first_missing(strings_of_members(m.skip(i + 1)), env)
        },
{
    lemma_strings_of_members_split(m, i);
    lemma_first_missing_concat(strings_of_members(m.take(i)), json_strings(m[i].1) + strings_of_members(m.skip(i + 1)), env);
    lemma_first_missing_concat(json_strings(m[i].1), strings_of_members(m.skip(i + 1)), env);
}

proof fn lemma_strings_of_values_split(a: Seq<JsonValue>, i: int)
    requires
        0 <= i < a.len(),
    ensures
        strings_of_values(a) == strings_of_values(a.take(i)) + (json_strings(a[i])
            + strings_of_values(a.skip(i + 1))),
    decreases i,
{
    if i == 0 {
        assert(a.take(0) == Seq::<JsonValue>::empty());
        assert(a.drop_first() == a.skip(1));
    } else {
        lemma_strings_of_values_split(a.drop_first(), i - 1);
        assert(a.drop_first().take(i - 1) == a.take(i).drop_first());
        assert(a.drop_first().skip(i) == a.skip(i + 1));
        assert(a.drop_first()[i - 1] == a[i]);
        assert(a.take(i)[0] == a[0]);
    }
}

proof fn lemma_strings_of_members_split(m: Seq<(String, JsonValue)>, i: int)
    requires
        0 <= i < m.len(),
    ensures
        strings_of_members(m) == strings_of_members(m.take(i)) + (json_strings(m[i].1)
            + strings_of_members(m.skip(i + 1))),
    decreases i,
{
    if i == 0 {
        assert(m.take(0) == Seq::<(String, JsonValue)>::empty());
        assert(m.drop_first() == m.skip(1));
    } else {
        lemma_strings_of_members_split(m.drop_first(), i - 1);
        assert(m.drop_first().take(i - 1) == m.take(i).drop_first());
        assert(m.drop_first().skip(i) == m.skip(i + 1));
        assert(m.drop_first()[i - 1] == m[i]);
        assert(m.take(i)[0] == m[0]);
    }
}

/// Replaces the placeholders in every string of a configuration document.
/// Gives the new document and the warnings for missing variables (only in
/// non-strict mode; in strict mode a missing variable is an error).
pub fn substitute_value(value: JsonValue, env: &[(String, String)], strict: bool) -> (r: Result<(JsonValue, Vec<String>), CliError>)
    ensures
        match r {
            Ok((new, w)) => document_outcome(
                value,
                Ok(new),
                seq![],
                views(w@),
                env_view(env@),
                strict,
            ),
            Err(err) => document_outcome(
                value,
                Err(err@),
                seq![],
                seq![],
                env_view(env@),
                strict,
            ),
        },
{
    let mut warnings: Vec<String> = Vec::new();
    assert(views(warnings@) == Seq::<Seq<char>>::empty());
    match substitute_in(&value, env, strict, &mut warnings) {
        Ok(new) => Ok((new, warnings)),
        Err(err) => Err(err),
    }
}

} // verus!
