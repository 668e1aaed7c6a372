//! Name matching: the glob patterns of the configuration and of `grep`,
//! translated into regular expressions that the `regex` crate runs.
use vstd::prelude::*;

verus! {

/// Whether `regex::RegexBuilder` accepts `pattern` (with case-insensitive
/// matching switched on or off).
pub uninterp spec fn regex_compiles(pattern: Seq<char>, case_insensitive: bool) -> bool;

/// What `Regex::is_match` answers for `text`, where the regex is the one built
/// from `pattern` (with case-insensitive matching switched on or off).
pub uninterp spec fn regex_match(pattern: Seq<char>, text: Seq<char>, case_insensitive: bool) -> bool;

/// Builds a regex from `pattern` with `regex::RegexBuilder` and tests `text`
/// against it with `Regex::is_match`. Claims: the result is `None` exactly when
/// the builder refuses the pattern, and otherwise it is the answer of
/// `is_match`, which depends on the pattern, the text and the flag alone.
#[verifier::external_body]
pub(crate) fn regex_is_match(pattern: &str, text: &str, case_insensitive: bool) -> (r: Option<bool>)
    ensures
        (r is Some) == regex_compiles(pattern@, case_insensitive),
        r matches Some(b) ==> b == regex_match(pattern@, text@, case_insensitive),
{
    match regex::RegexBuilder::new(pattern).case_insensitive(case_insensitive).build() {
        Ok(re) => Some(re.is_match(text)),
        Err(_) => None,
    }
}

/// Builds a regex from `pattern` with `regex::RegexBuilder`. Claims: the
/// result is `Ok` exactly when the builder accepts the pattern. Nothing is
/// said of the regex itself, which is opaque here.
#[verifier::external_body]
pub(crate) fn build_regex(pattern: &str, case_insensitive: bool) -> (r: Result<regex::Regex, regex::Error>)
    ensures
        (r is Ok) == regex_compiles(pattern@, case_insensitive),
{
    regex::RegexBuilder::new(pattern).case_insensitive(case_insensitive).build()
}

/// Declares `regex::Regex`, a compiled regex, to the verifier as opaque.
#[verifier::external_type_specification]
#[verifier::external_body]
pub struct ExRegex(regex::Regex);

/// Declares `regex::Error`, why a regex did not compile, as opaque.
#[verifier::external_type_specification]
#[verifier::external_body]
pub struct ExRegexError(regex::Error);

/// The characters that a regex gives a meaning to, escaped by the
/// configuration's glob translation.
pub open spec fn is_config_special(c: char) -> bool {
    c == '.' || c == '+' || c == '^' || c == '$' || c == '{' || c == '}' || c == '(' || c == ')'
        || c == '|' || c == '[' || c == ']' || c == '\\'
}

/// The regex text for one glob character of a configuration pattern: `*`
/// matches any run, `?` any one character, and everything else itself.
pub open spec fn config_glob_piece(c: char) -> Seq<char> {
    if is_config_special(c) {
        seq!['\\', c]
    } else if c == '*' {
        seq!['.', '*']
    } else if c == '?' {
        seq!['.']
    } else {
        seq![c]
    }
}

/// The regex body for a configuration glob pattern, character by character.
pub open spec fn config_glob_body(p: Seq<char>) -> Seq<char>
    decreases p.len(),
{
    if p.len() == 0 {
        seq![]
    } else {
        config_glob_body(p.drop_last()) + config_glob_piece(p.last())
    }
}

/// The anchored regex for a configuration glob pattern.
pub open spec fn config_glob_regex(p: Seq<char>) -> Seq<char> {
    seq!['^'] + config_glob_body(p) + seq!['$']
}

/// A tool name matches a configuration glob pattern: the translated regex is
/// accepted and matches the whole name, ignoring case.
pub open spec fn glob_matches(name: Seq<char>, pattern: Seq<char>) -> bool {
    regex_compiles(config_glob_regex(pattern), true) && regex_match(
        config_glob_regex(pattern),
        name,
        true,
    )
}

/// `p` has no wildcard and no character that a regex gives a meaning to.
pub open spec fn is_literal_pattern(p: Seq<char>) -> bool {
    forall|i: int|
        0 <= i < p.len() ==> !is_config_special(#[trigger] p[i]) && !is_search_special(p[i]) && p[i]
            != '*' && p[i] != '?'
}

proof fn lemma_config_body_literal(p: Seq<char>)
    requires
        is_literal_pattern(p),
    ensures
        config_glob_body(p) == p,
    decreases p.len(),
{
    if p.len() > 0 {
        assert(is_literal_pattern(p.drop_last())) by {
            assert forall|i: int| 0 <= i < p.drop_last().len() implies !is_config_special(
                #[trigger] p.drop_last()[i],
            ) && !is_search_special(p.drop_last()[i]) && p.drop_last()[i] != '*' && p.drop_last()[i]
                != '?' by {
                assert(p.drop_last()[i] == p[i]);
            }
        }
        lemma_config_body_literal(p.drop_last());
        assert(p.drop_last().push(p.last()) == p);
    }
}

/// Law: a configuration pattern without wildcards or regex characters is
/// matched against a name as itself, anchored at both ends: the regex is
/// `^`, the pattern, `$`, so a name matches only as a whole, never by a
/// prefix or a part of it (case is ignored).
pub proof fn law_literal_config_pattern_is_whole_name(p: Seq<char>, name: Seq<char>)
    requires
        is_literal_pattern(p),
    ensures
        config_glob_regex(p) == seq!['^'] + p + seq!['$'],
        glob_matches(name, p) == (regex_compiles(seq!['^'] + p + seq!['$'], true) && regex_match(
            seq!['^'] + p + seq!['$'],
            name,
            true,
        )),
{
    lemma_config_body_literal(p);
}

/// Law: whatever the pattern, its configuration regex starts with `^` and
/// ends with `$`, and the pattern's characters translate one by one in
/// between: a pattern extended by one character gives the regex of the
/// shorter pattern with that character's translation inserted before `$`.
pub proof fn law_config_regex_anchored(p: Seq<char>, c: char)
    ensures
        config_glob_regex(p)[0] == '^',
        config_glob_regex(p).last() == '$',
        config_glob_regex(p.push(c)) == config_glob_regex(p).drop_last() + config_glob_piece(c) + seq![
            '$',
        ],
{
    assert(p.push(c).drop_last() == p);
    assert(config_glob_regex(p).drop_last() == seq!['^'] + config_glob_body(p));
}

/// The anchored regex for a configuration glob pattern.
pub fn config_glob_to_regex(pattern: &str) -> (r: String)
    ensures
        r@ == config_glob_regex(pattern@),
{
    let v = crate::text::chars_of(pattern);
    let mut body = String::new();
    let mut i: usize = 0;
    while i < v.len()
        invariant
            v@ == pattern@,
            i <= v.len(),
            body@ == config_glob_body(v@.take(i as int)),
        decreases v.len() - i,
    {
        let c = v[i];
        assert(v@.take(i + 1).drop_last() == v@.take(i as int));
        if c == '.' || c == '+' || c == '^' || c == '$' || c == '{' || c == '}' || c == '(' || c
            == ')' || c == '|' || c == '[' || c == ']' || c == '\\' {
            crate::text::push_char(&mut body, '\\');
            crate::text::push_char(&mut body, c);
        } else if c == '*' {
            crate::text::push_char(&mut body, '.');
            crate::text::push_char(&mut body, '*');
        } else if c == '?' {
            crate::text::push_char(&mut body, '.');
        } else {
            crate::text::push_char(&mut body, c);
        }
        i = i + 1;
    }
    assert(v@.take(v.len() as int) == v@);
    let mut r = String::new();
    crate::text::push_char(&mut r, '^');
    r.append(body.as_str());
    crate::text::push_char(&mut r, '$');
    r
}

/// Whether a tool name matches a configuration glob pattern (`*` and `?`
/// wildcards, whole name, ignoring case).
pub fn matches_pattern(name: &str, pattern: &str) -> (r: bool)
    ensures
        r == glob_matches(name@, pattern@),
{
    let re = config_glob_to_regex(pattern);
    match regex_is_match(re.as_str(), name, true) {
        Some(b) => b,
        None => false,
    }
}

/// Some pattern in `patterns` matches `name`.
pub open spec fn matches_any(name: Seq<char>, patterns: Seq<Seq<char>>) -> bool {
    exists|i: int| 0 <= i < patterns.len() && glob_matches(name, #[trigger] patterns[i])
}

/// Whether some pattern in `patterns` matches `name`.
pub fn matches_any_pattern(name: &str, patterns: &[String]) -> (r: bool)
    ensures
        r == matches_any(name@, crate::text::views(patterns@)),
{
    let mut i: usize = 0;
    while i < patterns.len()
        invariant
            i <= patterns.len(),
            forall|j: int| 0 <= j < i ==> !glob_matches(name@, #[trigger] patterns@[j]@),
        decreases patterns.len() - i,
    {
        if matches_pattern(name, patterns[i].as_str()) {
            assert(crate::text::views(patterns@)[i as int] == patterns@[i as int]@);
            return true;
        }
        i = i + 1;
    }
    assert forall|j: int| 0 <= j < patterns@.len() implies !glob_matches(
        name@,
        #[trigger] crate::text::views(patterns@)[j],
    ) by {
        assert(crate::text::views(patterns@)[j] == patterns@[j]@);
    }
    false
}

// ============================================================================
// Search patterns of `grep`
// ============================================================================

/// The characters escaped by the search pattern translation.
pub open spec fn is_search_special(c: char) -> bool {
    c == '[' || c == '.' || c == '+' || c == '^' || c == '$' || c == '{' || c == '}' || c == '('
        || c == ')' || c == '|' || c == '\\' || c == ']'
}

/// The number of `*` at the front of `p`.
pub open spec fn star_run(p: Seq<char>) -> nat
    decreases p.len(),
{
    if p.len() > 0 && p[0] == '*' {
        1 + star_run(p.drop_first())
    } else {
        0
    }
}

/// The regex body for a search pattern: `**` (or a longer run of `*`)
/// matches anything, a single `*` any run without `/`, `?` one character
/// other than `/`, and everything else itself.
pub open spec fn search_glob_body(p: Seq<char>) -> Seq<char>
    decreases p.len(),
{
    if p.len() == 0 {
        seq![]
    } else if p[0] == '*' && star_run(p) >= 2 {
        proof {
            lemma_star_run_bound(p);
        }
        seq!['.', '*'] + search_glob_body(p.skip(star_run(p) as int))
    } else if p[0] == '*' {
        "[^/]*"@ + search_glob_body(p.drop_first())
    } else if p[0] == '?' {
        "[^/]"@ + search_glob_body(p.drop_first())
    } else if is_search_special(p[0]) {
        seq!['\\', p[0]] + search_glob_body(p.drop_first())
    } else {
        seq![p[0]] + search_glob_body(p.drop_first())
    }
}

/// The anchored regex for a search pattern.
pub open spec fn search_glob_regex(p: Seq<char>) -> Seq<char> {
    seq!['^'] + search_glob_body(p) + seq!['$']
}

proof fn lemma_search_body_literal(p: Seq<char>)
    requires
        is_literal_pattern(p),
    ensures
        search_glob_body(p) == p,
    decreases p.len(),
{
    if p.len() > 0 {
        assert(p[0] != '*' && p[0] != '?' && !is_search_special(p[0]));
        assert(is_literal_pattern(p.drop_first())) by {
            assert forall|i: int| 0 <= i < p.drop_first().len() implies !is_config_special(
                #[trigger] p.drop_first()[i],
            ) && !is_search_special(p.drop_first()[i]) && p.drop_first()[i] != '*'
                && p.drop_first()[i] != '?' by {
                assert(p.drop_first()[i] == p[i + 1]);
            }
        }
        lemma_search_body_literal(p.drop_first());
        assert(seq![p[0]] + p.drop_first() == p);
    }
}

/// Law: a search pattern without wildcards or regex characters finds a tool
/// only by its whole name: the regex is `^`, the pattern, `$`, so a name that
/// merely starts with (or contains) the pattern is no hit.
pub proof fn law_literal_search_pattern_is_whole_name(p: Seq<char>)
    requires
        is_literal_pattern(p),
    ensures
        search_glob_regex(p) == seq!['^'] + p + seq!['$'],
{
    lemma_search_body_literal(p);
}

/// A run of stars never reaches past the pattern.
pub proof fn lemma_star_run_bound(p: Seq<char>)
    ensures
        star_run(p) <= p.len(),
        forall|j: int| 0 <= j < star_run(p) ==> p[j] == '*',
        star_run(p) < p.len() ==> p[star_run(p) as int] != '*',
    decreases p.len(),
{
    if p.len() > 0 && p[0] == '*' {
        lemma_star_run_bound(p.drop_first());
        assert forall|j: int| 0 <= j < star_run(p) implies p[j] == '*' by {
            if j > 0 {
                assert(p.drop_first()[j - 1] == p[j]);
            }
        }
    }
}

/// Skipping into a run of stars leaves the rest of the run.
pub proof fn lemma_star_run_skip(p: Seq<char>, k: int)
    requires
        0 <= k <= p.len(),
        forall|j: int| 0 <= j < k ==> p[j] == '*',
        k == p.len() || p[k] != '*',
    ensures
        star_run(p) == k,
    decreases k,
{
    if k > 0 {
        lemma_star_run_skip(p.drop_first(), k - 1);
    }
}

/// The anchored regex for a search pattern.
pub fn search_glob_to_regex(pattern: &str) -> (r: String)
    ensures
        r@ == search_glob_regex(pattern@),
{
    let v = crate::text::chars_of(pattern);
    let mut body = String::new();
    let mut i: usize = 0;
    assert(v@.skip(0) == v@);
    while i < v.len()
        invariant
            v@ == pattern@,
            i <= v.len(),
            body@ + search_glob_body(v@.skip(i as int)) == search_glob_body(pattern@),
        decreases v.len() - i,
    {
        let c = v[i];
        let ghost rest = v@.skip(i as int);
        assert(rest[0] == c);
        if c == '*' && i + 1 < v.len() && v[i + 1] == '*' {
            let mut j = i + 2;
            while j < v.len() && v[j] == '*'
                invariant
                    i + 2 <= j <= v.len(),
                    forall|k: int| i <= k < j ==> v@[k] == '*',
                decreases v.len() - j,
            {
                j = j + 1;
            }
            proof {
                lemma_star_run_skip(rest, j - i);
                assert(rest.skip(j - i) == v@.skip(j as int));
            }
            body.append(".*");
            assert(".*"@ == seq!['.', '*']) by {
                reveal_strlit(".*");
            }
            i = j;
        } else if c == '*' {
            proof {
                if i + 1 < v.len() {
                    lemma_star_run_skip(rest, 1);
                } else {
                    lemma_star_run_skip(rest, 1);
                }
                assert(rest.drop_first() == v@.skip(i + 1));
            }
            body.append("[^/]*");
            i = i + 1;
        } else if c == '?' {
            assert(rest.drop_first() == v@.skip(i + 1));
            body.append("[^/]");
            i = i + 1;
        } else if c == '[' || c == '.' || c == '+' || c == '^' || c == '$' || c == '{' || c == '}'
            || c == '(' || c == ')' || c == '|' || c == '\\' || c == ']' {
            assert(rest.drop_first() == v@.skip(i + 1));
            crate::text::push_char(&mut body, '\\');
            crate::text::push_char(&mut body, c);
            i = i + 1;
        } else {
            assert(rest.drop_first() == v@.skip(i + 1));
            crate::text::push_char(&mut body, c);
            i = i + 1;
        }
    }
    assert(v@.skip(v.len() as int) == Seq::<char>::empty());
    let mut r = String::new();
    crate::text::push_char(&mut r, '^');
    r.append(body.as_str());
    crate::text::push_char(&mut r, '$');
    r
}

} // verus!
