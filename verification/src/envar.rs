//! Parsing of the global override file: one `KEY=value` per line, `#` and
//! `;` comment lines, malformed lines reported as warnings without aborting
//! the rest of the file.

use vstd::prelude::*;

use crate::envmap::EnvMap;
use crate::text::{
    char_is_key_continue, char_is_key_start, find_char, find_first, is_key_continue, is_key_start,
    trim_bounds, trimmed,
};

verus! {

broadcast use vstd::string::group_string_axioms;

/// Why a line was rejected.
#[derive(Debug, Clone, Copy, PartialEq, Eq, Structural)]
pub enum WarnKind {
    /// The key before `=` is not a valid variable name.
    InvalidKey,
    /// The line has no `=` at all.
    NoSeparator,
}

/// One warning about a rejected override line.
#[derive(Debug)]
pub struct Warning {
    /// One-based line number.
    pub line_number: usize,
    /// What was wrong.
    pub kind: WarnKind,
    /// The rejected key, or the whole trimmed line when no `=` was found.
    pub subject: String,
}

impl Warning {
    pub open spec fn view_tuple(&self) -> (int, WarnKind, Seq<char>) {
        (self.line_number as int, self.kind, self.subject@)
    }

    /// The rendered warning line.
    pub fn message(&self) -> (r: String)
        ensures
            r@ == warning_message(self.line_number as nat, self.kind, self.subject@),
    {
        let mut s = String::from_str("Line ");
        s.append(crate::text::u64_to_string(self.line_number as u64).as_str());
        match self.kind {
            WarnKind::InvalidKey => {
                s.append(": Invalid env var key '");
                s.append(self.subject.as_str());
                s.append("': must match [A-Za-z_][A-Za-z0-9_]*");
            },
            WarnKind::NoSeparator => {
                s.append(": No '=' separator found in '");
                s.append(self.subject.as_str());
                s.append("'");
            },
        }
        s
    }
}

/// What a warning renders to: the line number, the complaint, and the
/// rejected key or line.
pub open spec fn warning_message(line: nat, kind: WarnKind, subject: Seq<char>) -> Seq<char> {
    let head = "Line "@ + crate::text::dec_str(line);
    match kind {
        WarnKind::InvalidKey => head + ": Invalid env var key '"@ + subject
            + "': must match [A-Za-z_][A-Za-z0-9_]*"@,
        WarnKind::NoSeparator => head + ": No '=' separator found in '"@ + subject + "'"@,
    }
}

/// The warning views of a warning list.
pub open spec fn warning_views(ws: Seq<Warning>) -> Seq<(int, WarnKind, Seq<char>)> {
    ws.map_values(|w: Warning| w.view_tuple())
}

/// A valid environment-variable name: `[A-Za-z_][A-Za-z0-9_]*`.
pub open spec fn valid_key(s: Seq<char>) -> bool {
    &&& s.len() > 0
    &&& is_key_start(s[0])
    &&& forall|i: int| 1 <= i < s.len() ==> is_key_continue(#[trigger] s[i])
}

/// How one line is read, after trimming.
pub enum LineClass {
    /// Blank, or a `#`/`;` comment.
    Skip,
    /// `key=value` with a valid key.
    Entry(Seq<char>, Seq<char>),
    /// `key=value` with an invalid key.
    BadKey(Seq<char>),
    /// No `=` separator.
    NoSep(Seq<char>),
}

/// Classify one raw line.
pub open spec fn classify_line(line: Seq<char>) -> LineClass {
    let t = trimmed(line);
    if t.len() == 0 {
        LineClass::Skip
    } else if t[0] == '#' || t[0] == ';' {
        LineClass::Skip
    } else {
        let e = find_first(t, '=');
        if e < 0 {
            LineClass::NoSep(t)
        } else {
            let k = trimmed(t.subrange(0, e));
            let v = trimmed(t.subrange(e + 1, t.len() as int));
            if valid_key(k) {
                LineClass::Entry(k, v)
            } else {
                LineClass::BadKey(k)
            }
        }
    }
}

/// One parse step: how a line extends the accumulated variables and
/// warnings. A line contributes exactly one entry, exactly one warning, or
/// nothing.
pub open spec fn parse_step(
    line: Seq<char>,
    lineno: int,
    m: Map<Seq<char>, Seq<char>>,
    w: Seq<(int, WarnKind, Seq<char>)>,
) -> (Map<Seq<char>, Seq<char>>, Seq<(int, WarnKind, Seq<char>)>) {
    match classify_line(line) {
        LineClass::Skip => (m, w),
        LineClass::Entry(k, v) => (m.insert(k, v), w),
        LineClass::BadKey(k) => (m, w.push((lineno, WarnKind::InvalidKey, k))),
        LineClass::NoSep(t) => (m, w.push((lineno, WarnKind::NoSeparator, t))),
    }
}

/// Where the line starting at `pos` ends: the first newline at or after
/// `pos`, or the end of the content.
pub open spec fn line_end(s: Seq<char>, pos: int) -> int {
    let f = find_first(s.subrange(pos, s.len() as int), '\n');
    if f < 0 {
        s.len() as int
    } else {
        pos + f
    }
}

/// The raw text of the line starting at `pos`: up to the next newline, with
/// a carriage return immediately before the newline stripped.
pub open spec fn line_at(s: Seq<char>, pos: int) -> Seq<char> {
    let e = line_end(s, pos);
    let raw = s.subrange(pos, e);
    if e < s.len() && raw.len() > 0 && raw.last() == '\r' {
        raw.drop_last()
    } else {
        raw
    }
}

/// Parse the content from `pos` on, line `lineno` next, extending the
/// accumulated variables and warnings.
pub open spec fn parse_from(
    s: Seq<char>,
    pos: int,
    lineno: int,
    m: Map<Seq<char>, Seq<char>>,
    w: Seq<(int, WarnKind, Seq<char>)>,
) -> (Map<Seq<char>, Seq<char>>, Seq<(int, WarnKind, Seq<char>)>)
    decreases s.len() - pos when 0 <= pos <= s.len()
{
    if pos >= s.len() {
        (m, w)
    } else {
        let e = line_end(s, pos);
        let next = if e < s.len() {
            e + 1
        } else {
            s.len() as int
        };
        let sw = parse_step(line_at(s, pos), lineno, m, w);
        parse_from(s, next, lineno + 1, sw.0, sw.1)
    }
}

/// The mapping and warnings of a whole override file.
pub open spec fn parse_result(s: Seq<char>) -> (
    Map<Seq<char>, Seq<char>>,
    Seq<(int, WarnKind, Seq<char>)>,
) {
    parse_from(s, 0, 1, Map::empty(), Seq::empty())
}

/// Whether `key` is a valid environment-variable name.
pub fn is_valid_env_var_key(key: &str) -> (r: bool)
    ensures
        r == valid_key(key@),
{
    let n = key.unicode_len();
    if n == 0 {
        return false;
    }
    if !char_is_key_start(key.get_char(0)) {
        return false;
    }
    let mut i: usize = 1;
    while i < n
        invariant
            1 <= i <= n,
            n == key@.len(),
            is_key_start(key@[0]),
            forall|j: int| 1 <= j < i ==> is_key_continue(#[trigger] key@[j]),
        decreases n - i,
    {
        if !char_is_key_continue(key.get_char(i)) {
            return false;
        }
        i = i + 1;
    }
    true
}

proof fn lemma_line_end_bounds(s: Seq<char>, pos: int)
    requires
        0 <= pos <= s.len(),
    ensures
        pos <= line_end(s, pos) <= s.len(),
        line_end(s, pos) < s.len() ==> s[line_end(s, pos)] == '\n',
        forall|j: int| pos <= j < line_end(s, pos) ==> s[j] != '\n',
{
    let sub = s.subrange(pos, s.len() as int);
    crate::text::lemma_find_first_characterization(sub, '\n');
    let f = find_first(sub, '\n');
    if f >= 0 {
        assert(forall|j: int| pos <= j < pos + f ==> s[j] == sub[j - pos]);
    } else {
        assert(forall|j: int| pos <= j < s.len() ==> s[j] == sub[j - pos]);
    }
}

/// Parse override-file content. Every accepted key is a valid variable
/// name; each malformed line yields exactly one warning and no entry; blank
/// and comment lines yield nothing.
pub fn parse_envar_content(content: &str) -> (r: (EnvMap, Vec<Warning>))
    ensures
        r.0.wf(),
        (r.0.map(), warning_views(r.1@)) == parse_result(content@),
        forall|k: Seq<char>| r.0.map().contains_key(k) ==> valid_key(k),
{
    let ghost s = content@;
    let n = content.unicode_len();
    let mut env = EnvMap::new();
    let mut warnings: Vec<Warning> = Vec::new();
    let mut pos: usize = 0;
    let mut lineno: usize = 1;
    proof {
        lemma_parse_from_valid_keys(s, 0, 1, env.map(), warning_views(warnings@));
        assert(warning_views(warnings@) =~= Seq::<(int, WarnKind, Seq<char>)>::empty());
    }
    while pos < n
        invariant
            n == s.len(),
            content@ == s,
            0 <= pos <= n,
            1 <= lineno,
            lineno <= pos + 1,
            env.wf(),
            forall|k: Seq<char>| env.map().contains_key(k) ==> valid_key(k),
            parse_result(s) == parse_from(
                s,
                pos as int,
                lineno as int,
                env.map(),
                warning_views(warnings@),
            ),
        decreases n - pos,
    {
        let ghost old_map = env.map();
        let ghost old_warns = warning_views(warnings@);

        // Find the end of this line.
        let eol = match find_char(content, pos, n, '\n') {
            Some(i) => i,
            None => n,
        };
        proof {
            let sub = s.subrange(pos as int, n as int);
            if eol < n {
                assert(forall|j: int| 0 <= j < eol - pos ==> sub[j] == s[j + pos]);
                crate::text::lemma_find_first_from_witness(sub, '\n', eol - pos);
            } else {
                assert(forall|j: int| 0 <= j < sub.len() ==> sub[j] == s[j + pos]);
                crate::text::lemma_find_first_none(sub, '\n');
            }
            assert(line_end(s, pos as int) == eol as int);
        }

        // Strip a carriage return before the newline.
        let rawend = if eol < n && eol > pos && content.get_char(eol - 1) == '\r' {
            eol - 1
        } else {
            eol
        };
        proof {
            let raw = s.subrange(pos as int, eol as int);
            if eol < n && eol > pos && s[eol - 1] == '\r' {
                assert(raw.last() == s[eol - 1]);
                assert(raw.drop_last() =~= s.subrange(pos as int, rawend as int));
            }
            assert(line_at(s, pos as int) == s.subrange(pos as int, rawend as int));
        }
        let ghost line = line_at(s, pos as int);

        // Trim the line.
        let (a, b) = trim_bounds(content, pos, rawend);
        proof {
            assert(trimmed(line) == s.subrange(a as int, b as int));
        }
        let ghost t = trimmed(line);

        if a == b {
            // Blank line.
            proof {
                assert(classify_line(line) is Skip);
            }
        } else {
            let first = content.get_char(a);
            if first == '#' || first == ';' {
                proof {
                    assert(t[0] == s[a as int]);
                    assert(classify_line(line) is Skip);
                }
            } else {
                proof {
                    assert(t[0] == s[a as int]);
                }
                match find_char(content, a, b, '=') {
                    Some(eq) => {
                        proof {
                            assert(forall|j: int| 0 <= j < eq - a ==> t[j] == s[j + a]);
                            assert(t[eq - a] == s[eq as int]);
                            crate::text::lemma_find_first_from_witness(t, '=', eq - a);
                        }
                        // Trim the key and the value.
                        let (ka, kb) = trim_bounds(content, a, eq);
                        let (va, vb) = trim_bounds(content, eq + 1, b);
                        proof {
                            assert(t.subrange(0, eq - a) =~= s.subrange(a as int, eq as int));
                            assert(t.subrange(eq - a + 1, t.len() as int) =~= s.subrange(
                                eq + 1,
                                b as int,
                            ));
                        }
                        let ghost k = trimmed(t.subrange(0, (eq - a) as int));
                        let ghost v = trimmed(t.subrange((eq - a + 1) as int, t.len() as int));
                        proof {
                            assert(k == s.subrange(ka as int, kb as int));
                            assert(v == s.subrange(va as int, vb as int));
                        }
                        let key = String::from_str(content.substring_char(ka, kb));
                        let value = String::from_str(content.substring_char(va, vb));
                        if is_valid_env_var_key(key.as_str()) {
                            proof {
                                assert(classify_line(line) == LineClass::Entry(k, v));
                            }
                            env.insert(key, value);
                        } else {
                            proof {
                                assert(classify_line(line) == LineClass::BadKey(k));
                            }
                            let w = Warning {
                                line_number: lineno,
                                kind: WarnKind::InvalidKey,
                                subject: key,
                            };
                            let ghost oldw = warnings@;
                            warnings.push(w);
                            proof {
                                assert(warning_views(warnings@) =~= warning_views(oldw).push(
                                    (lineno as int, WarnKind::InvalidKey, k),
                                ));
                            }
                        }
                    },
                    None => {
                        proof {
                            assert(forall|j: int| 0 <= j < t.len() ==> t[j] == s[j + a]);
                            crate::text::lemma_find_first_none(t, '=');
                            assert(classify_line(line) == LineClass::NoSep(t));
                        }
                        let w = Warning {
                            line_number: lineno,
                            kind: WarnKind::NoSeparator,
                            subject: String::from_str(content.substring_char(a, b)),
                        };
                        let ghost oldw = warnings@;
                        warnings.push(w);
                        proof {
                            assert(warning_views(warnings@) =~= warning_views(oldw).push(
                                (lineno as int, WarnKind::NoSeparator, t),
                            ));
                        }
                    },
                }
            }
        }
        proof {
            assert((env.map(), warning_views(warnings@)) == parse_step(
                line,
                lineno as int,
                old_map,
                old_warns,
            ));
            lemma_parse_step_valid_keys(line, lineno as int, old_map, old_warns);
        }
        let next = if eol < n {
            eol + 1
        } else {
            n
        };
        pos = next;
        if pos < n {
            lineno = lineno + 1;
        } else {
            proof {
                assert(parse_from(
                    s,
                    pos as int,
                    lineno as int + 1,
                    env.map(),
                    warning_views(warnings@),
                ) == (env.map(), warning_views(warnings@)));
                assert(parse_from(
                    s,
                    pos as int,
                    lineno as int,
                    env.map(),
                    warning_views(warnings@),
                ) == (env.map(), warning_views(warnings@)));
            }
        }
    }
    (env, warnings)
}

/// Each line is all-or-nothing: a well-formed `key=value` line adds exactly
/// its one entry and no warning; a rejected line adds exactly one warning
/// and no entry; a blank or comment line adds nothing.
pub proof fn lemma_parse_step_exclusive(
    line: Seq<char>,
    lineno: int,
    m: Map<Seq<char>, Seq<char>>,
    w: Seq<(int, WarnKind, Seq<char>)>,
)
    ensures
        ({
            let (m2, w2) = parse_step(line, lineno, m, w);
            match classify_line(line) {
                LineClass::Skip => m2 == m && w2 == w,
                LineClass::Entry(k, v) => m2 == m.insert(k, v) && valid_key(k) && w2 == w,
                LineClass::BadKey(k) => m2 == m && w2 == w.push((lineno, WarnKind::InvalidKey, k))
                    && !valid_key(k),
                LineClass::NoSep(t) => m2 == m && w2 == w.push((
                    lineno,
                    WarnKind::NoSeparator,
                    t,
                )),
            }
        }),
{
}

/// Keys accumulated by a parse are valid if the accumulator's were.
proof fn lemma_parse_step_valid_keys(
    line: Seq<char>,
    lineno: int,
    m: Map<Seq<char>, Seq<char>>,
    w: Seq<(int, WarnKind, Seq<char>)>,
)
    requires
        forall|k: Seq<char>| m.contains_key(k) ==> valid_key(k),
    ensures
        forall|k: Seq<char>| parse_step(line, lineno, m, w).0.contains_key(k) ==> valid_key(k),
{
}

/// Every key of a parse result is a valid variable name, provided the
/// accumulator's keys are.
pub proof fn lemma_parse_from_valid_keys(
    s: Seq<char>,
    pos: int,
    lineno: int,
    m: Map<Seq<char>, Seq<char>>,
    w: Seq<(int, WarnKind, Seq<char>)>,
)
    requires
        0 <= pos <= s.len(),
        forall|k: Seq<char>| m.contains_key(k) ==> valid_key(k),
    ensures
        forall|k: Seq<char>|
            parse_from(s, pos, lineno, m, w).0.contains_key(k) ==> valid_key(k),
    decreases s.len() - pos,
{
    if pos < s.len() {
        let e = line_end(s, pos);
        lemma_line_end_bounds(s, pos);
        let next = if e < s.len() {
            e + 1
        } else {
            s.len() as int
        };
        let sw = parse_step(line_at(s, pos), lineno, m, w);
        lemma_parse_step_valid_keys(line_at(s, pos), lineno, m, w);
        lemma_parse_from_valid_keys(s, next, lineno + 1, sw.0, sw.1);
    }
}

} // verus!
