//! Runner resolution: mapping a user-facing runner identifier to an
//! installed compatibility-toolchain directory, plus the static table of
//! known runner families and the helpers of the version-management flow.

use vstd::prelude::*;

use crate::text::dec_str;
use crate::LauncherError;

verus! {

/// `p` is a prefix of `name`.
pub open spec fn has_prefix(name: Seq<char>, p: Seq<char>) -> bool {
    p.len() <= name.len() && name.subrange(0, p.len() as int) == p
}

/// `suffix` ends `name`.
pub open spec fn has_suffix(name: Seq<char>, suffix: Seq<char>) -> bool {
    suffix.len() <= name.len() && name.subrange(
        name.len() - suffix.len(),
        name.len() as int,
    ) == suffix
}

/// Lexicographic order on character sequences, by code point.
pub open spec fn lex_le(a: Seq<char>, b: Seq<char>) -> bool
    decreases a.len(),
{
    if a.len() == 0 {
        true
    } else if b.len() == 0 {
        false
    } else if (a[0] as u32) < (b[0] as u32) {
        true
    } else if (a[0] as u32) > (b[0] as u32) {
        false
    } else {
        lex_le(a.drop_first(), b.drop_first())
    }
}

/// Whether `a` comes at or before `b` in lexicographic order.
pub fn str_lex_le(a: &str, b: &str) -> (r: bool)
    ensures
        r == lex_le(a@, b@),
{
    let na = a.unicode_len();
    let nb = b.unicode_len();
    proof {
        assert(a@.skip(0) =~= a@);
        assert(b@.skip(0) =~= b@);
    }
    let mut i: usize = 0;
    loop
        invariant
            na == a@.len(),
            nb == b@.len(),
            i <= na,
            i <= nb,
            forall|j: int| 0 <= j < i ==> a@[j] == b@[j],
            lex_le(a@, b@) == lex_le(a@.skip(i as int), b@.skip(i as int)),
        ensures
            ({
                let r = lex_le(a@, b@);
                r == lex_le(a@.skip(i as int), b@.skip(i as int))
            }),
            i <= na && i <= nb,
            (i >= na || i >= nb) || a@[i as int] != b@[i as int],
        decreases na - i,
    {
        if i >= na || i >= nb {
            break;
        }
        let ca = a.get_char(i);
        let cb = b.get_char(i);
        if ca != cb {
            break;
        }
        proof {
            let sa = a@.skip(i as int);
            let sb = b@.skip(i as int);
            assert(sa[0] == a@[i as int] && sb[0] == b@[i as int]);
            assert(sa.drop_first() =~= a@.skip(i + 1));
            assert(sb.drop_first() =~= b@.skip(i + 1));
        }
        i = i + 1;
    }
    proof {
        let sa = a@.skip(i as int);
        let sb = b@.skip(i as int);
        if i >= na {
            assert(sa.len() == 0);
        } else if i >= nb {
            assert(sb.len() == 0);
        } else {
            assert(sa[0] == a@[i as int] && sb[0] == b@[i as int]);
        }
    }
    if i >= na {
        true
    } else if i >= nb {
        false
    } else {
        (a.get_char(i) as u32) < (b.get_char(i) as u32)
    }
}

/// Whether `p` starts `name`.
pub fn str_has_prefix(name: &str, p: &str) -> (r: bool)
    ensures
        r == has_prefix(name@, p@),
{
    let np = p.unicode_len();
    let nn = name.unicode_len();
    if np > nn {
        return false;
    }
    let mut i: usize = 0;
    while i < np
        invariant
            np == p@.len(),
            nn == name@.len(),
            np <= nn,
            i <= np,
            forall|j: int| 0 <= j < i ==> name@[j] == p@[j],
        decreases np - i,
    {
        if name.get_char(i) != p.get_char(i) {
            proof {
                assert(name@.subrange(0, np as int)[i as int] == name@[i as int]);
            }
            return false;
        }
        i = i + 1;
    }
    proof {
        assert(name@.subrange(0, np as int) =~= p@);
    }
    true
}

/// Whether `suffix` ends `name`.
pub fn str_has_suffix(name: &str, suffix: &str) -> (r: bool)
    ensures
        r == has_suffix(name@, suffix@),
{
    let ns = suffix.unicode_len();
    let nn = name.unicode_len();
    if ns > nn {
        return false;
    }
    let base = nn - ns;
    let mut i: usize = 0;
    while i < ns
        invariant
            ns == suffix@.len(),
            nn == name@.len(),
            ns <= nn,
            base == nn - ns,
            i <= ns,
            forall|j: int| 0 <= j < i ==> name@[base + j] == suffix@[j],
        decreases ns - i,
    {
        if name.get_char(base + i) != suffix.get_char(i) {
            proof {
                assert(name@.subrange(base as int, nn as int)[i as int] == name@[base + i]);
            }
            return false;
        }
        i = i + 1;
    }
    proof {
        assert(name@.subrange(base as int, nn as int) =~= suffix@);
    }
    true
}

/// The views of a list of names.
pub open spec fn name_views(ts: Seq<String>) -> Seq<Seq<char>> {
    ts.map_values(|t: String| t@)
}

/// The lexicographically latest name with the given prefix, scanning from
/// the front with later equal names losing to earlier ones.
pub open spec fn latest_with_prefix(names: Seq<Seq<char>>, p: Seq<char>) -> Option<Seq<char>>
    decreases names.len(),
{
    if names.len() == 0 {
        None
    } else {
        let rest = latest_with_prefix(names.drop_last(), p);
        if has_prefix(names.last(), p) {
            match rest {
                None => Some(names.last()),
                Some(m) => if lex_le(m, names.last()) {
                    Some(names.last())
                } else {
                    Some(m)
                },
            }
        } else {
            rest
        }
    }
}

/// A runner identifier the resolver accepts: non-empty, without path
/// separators, and without a parent-directory step.
pub open spec fn runner_id_ok(s: Seq<char>) -> bool {
    &&& s.len() > 0
    &&& (forall|i: int| 0 <= i < s.len() ==> s[i] != '/' && s[i] != '\\')
    &&& (forall|i: int| 0 <= i && i + 1 < s.len() ==> !(#[trigger] s[i] == '.' && s[i + 1] == '.'))
}

/// Check a runner identifier: rejects empty identifiers and identifiers
/// holding path separators or a parent-directory step.
pub fn validate_runner(identifier: &str) -> (r: Result<(), LauncherError>)
    ensures
        r is Ok <==> runner_id_ok(identifier@),
        r is Err ==> r == Err::<(), LauncherError>(LauncherError::RunnerInvalid),
{
    let n = identifier.unicode_len();
    if n == 0 {
        return Err(LauncherError::RunnerInvalid);
    }
    let mut i: usize = 0;
    while i < n
        invariant
            n == identifier@.len(),
            i <= n,
            forall|j: int| 0 <= j < i ==> identifier@[j] != '/' && identifier@[j] != '\\',
            forall|j: int| 0 <= j && j + 1 <= i && j + 1 < n ==> !(#[trigger] identifier@[j]
                == '.' && identifier@[j + 1] == '.'),
        decreases n - i,
    {
        let c = identifier.get_char(i);
        if c == '/' || c == '\\' {
            return Err(LauncherError::RunnerInvalid);
        }
        if i + 1 < n && c == '.' && identifier.get_char(i + 1) == '.' {
            return Err(LauncherError::RunnerInvalid);
        }
        i = i + 1;
    }
    Ok(())
}

/// What an identifier resolves to against a list of installed directory
/// names: the empty identifier means the host default (an empty path); an
/// exact match resolves to itself; otherwise the latest installed name with
/// the identifier as prefix; otherwise nothing.
pub open spec fn resolve_spec(id: Seq<char>, names: Seq<Seq<char>>) -> Option<Seq<char>> {
    if id.len() == 0 {
        Some(Seq::empty())
    } else if names.contains(id) {
        Some(id)
    } else {
        latest_with_prefix(names, id)
    }
}

/// Resolve a runner identifier against the installed directory names. The
/// empty identifier is the "use host default" signal and resolves to the
/// empty name; any other identifier must match an installed directory
/// exactly or as a family prefix, else the launch must not proceed.
pub fn resolve_runner(identifier: &str, installed: &Vec<String>) -> (r: Result<
    String,
    LauncherError,
>)
    ensures
        ({
            let spec_r = resolve_spec(identifier@, name_views(installed@));
            match r {
                Ok(name) => spec_r == Some(name@),
                Err(e) => spec_r is None && e == LauncherError::RunnerNotFound,
            }
        }),
{
    let n = installed.len();
    if identifier.unicode_len() == 0 {
        return Ok(String::new());
    }
    // Exact match first.
    let mut i: usize = 0;
    while i < n
        invariant
            n == installed@.len(),
            forall|j: int| 0 <= j < i ==> name_views(installed@)[j] != identifier@,
        decreases n - i,
    {
        if crate::text::str_eq(installed[i].as_str(), identifier) {
            proof {
                assert(name_views(installed@)[i as int] == identifier@);
            }
            return Ok(String::from_str(identifier));
        }
        proof {
            assert(name_views(installed@)[i as int] == installed@[i as int]@);
        }
        i = i + 1;
    }
    proof {
        assert(forall|j: int|
            0 <= j < name_views(installed@).len() ==> name_views(installed@)[j] != identifier@);
        assert(!name_views(installed@).contains(identifier@));
    }
    // Family-prefix match: pick the latest installed version.
    let mut best: Option<&String> = None;
    let mut k: usize = 0;
    while k < n
        invariant
            n == installed@.len(),
            k <= n,
            ({
                let lw = latest_with_prefix(
                    name_views(installed@).subrange(0, k as int),
                    identifier@,
                );
                match best {
                    Some(b) => lw == Some(b@),
                    None => lw is None,
                }
            }),
        decreases n - k,
    {
        let ghost prefix_names = name_views(installed@).subrange(0, k as int);
        let name = &installed[k];
        proof {
            assert(name_views(installed@).subrange(0, k + 1).drop_last() =~= prefix_names);
            assert(name_views(installed@).subrange(0, k + 1).last() == name@);
        }
        if str_has_prefix(name.as_str(), identifier) {
            match &best {
                None => {
                    best = Some(name);
                },
                Some(b) => {
                    if str_lex_le(b.as_str(), name.as_str()) {
                        best = Some(name);
                    }
                },
            }
        }
        k = k + 1;
    }
    proof {
        assert(name_views(installed@).subrange(0, n as int) =~= name_views(installed@));
    }
    match best {
        Some(b) => Ok(b.clone()),
        None => Err(LauncherError::RunnerNotFound),
    }
}

/// Resolution is idempotent: against an unchanged list of installed names,
/// resolving the same identifier twice yields the same path, because the
/// result is a function of the identifier and the names alone.
pub proof fn lemma_resolve_idempotent(id: Seq<char>, names1: Seq<Seq<char>>, names2: Seq<Seq<char>>)
    requires
        names1 == names2,
    ensures
        resolve_spec(id, names1) == resolve_spec(id, names2),
{
}

/// The full path of a resolved runner under the compatibility-tools
/// directory; the empty name stays empty, as no runner-path variable is
/// emitted for it.
pub fn runner_path(compat_dir: &str, name: &str) -> (r: String)
    ensures
        name@.len() == 0 ==> r@ == Seq::<char>::empty(),
        name@.len() > 0 ==> r@ == compat_dir@ + "/"@ + name@,
{
    if name.unicode_len() == 0 {
        return String::new();
    }
    let mut s = String::from_str(compat_dir);
    s.append("/");
    s.append(name);
    s
}

/// One known runner family: its display label, its install directory, the
/// release feed it is fetched from, and its archive suffix.
pub struct ProtonConfig {
    pub label: String,
    pub dir: String,
    pub api: String,
    pub archive_ext: String,
}

/// Release information of a runner version.
pub struct ProtonRelease {
    pub tag_name: String,
    pub name: String,
    pub html_url: String,
    pub assets: Vec<ProtonAsset>,
}

/// One downloadable file of a release.
pub struct ProtonAsset {
    pub name: String,
    pub browser_download_url: String,
    pub size: u64,
}

/// The static table of known runner families.
pub fn proton_configs() -> (r: Vec<ProtonConfig>)
    ensures
        r@.len() == 2,
        r@[0].label@ == "GE-Proton"@,
        r@[0].dir@ == "GE-Proton Latest"@,
        r@[0].archive_ext@ == ".tar.gz"@,
        r@[1].label@ == "Proton-EM"@,
        r@[1].dir@ == "Proton-EM Latest"@,
        r@[1].archive_ext@ == ".tar.xz"@,
{
    let mut v: Vec<ProtonConfig> = Vec::new();
    v.push(
        ProtonConfig {
            label: String::from_str("GE-Proton"),
            dir: String::from_str("GE-Proton Latest"),
            api: String::from_str(
                "https://api.github.com/repos/GloriousEggroll/proton-ge-custom/releases/latest",
            ),
            archive_ext: String::from_str(".tar.gz"),
        },
    );
    v.push(
        ProtonConfig {
            label: String::from_str("Proton-EM"),
            dir: String::from_str("Proton-EM Latest"),
            api: String::from_str(
                "https://api.github.com/repos/Etaash-mathamsetty/Proton/releases/latest",
            ),
            archive_ext: String::from_str(".tar.xz"),
        },
    );
    v
}

/// The default runner family label.
pub fn get_default_runner() -> (r: String)
    ensures
        r@ == "GE-Proton"@,
{
    String::from_str("GE-Proton")
}

/// Index of the first asset whose name ends with the archive suffix.
pub fn select_asset(assets: &Vec<ProtonAsset>, archive_ext: &str) -> (r: Option<usize>)
    ensures
        match r {
            Some(i) => {
                &&& i < assets@.len()
                &&& has_suffix(assets@[i as int].name@, archive_ext@)
                &&& forall|j: int| 0 <= j < i ==> !has_suffix(assets@[j].name@, archive_ext@)
            },
            None => forall|j: int|
                0 <= j < assets@.len() ==> !has_suffix(assets@[j].name@, archive_ext@),
        },
{
    let n = assets.len();
    let mut i: usize = 0;
    while i < n
        invariant
            n == assets@.len(),
            forall|j: int| 0 <= j < i ==> !has_suffix(assets@[j].name@, archive_ext@),
        decreases n - i,
    {
        if str_has_suffix(assets[i].name.as_str(), archive_ext) {
            return Some(i);
        }
        i = i + 1;
    }
    None
}

/// An installed directory name that belongs to a runner family.
pub open spec fn is_runner_dir_name(n: Seq<char>) -> bool {
    has_prefix(n, "GE-Proton"@) || has_prefix(n, "Proton-"@)
}

/// The runner directory names among a directory listing, in listing order.
pub open spec fn runner_dir_names(ts: Seq<Seq<char>>) -> Seq<Seq<char>> {
    ts.filter(|t: Seq<char>| is_runner_dir_name(t))
}

/// Keep the directory names that belong to a runner family.
pub fn filter_runner_names(names: &Vec<String>) -> (r: Vec<String>)
    ensures
        name_views(r@) == runner_dir_names(name_views(names@)),
{
    let n = names.len();
    let mut kept: Vec<String> = Vec::new();
    proof {
        reveal_with_fuel(Seq::filter, 1);
        assert(name_views(kept@) =~= runner_dir_names(name_views(names@).subrange(0, 0)));
    }
    let mut i: usize = 0;
    while i < n
        invariant
            n == names@.len(),
            i <= n,
            name_views(kept@) == runner_dir_names(name_views(names@).subrange(0, i as int)),
        decreases n - i,
    {
        let ghost prefix = name_views(names@).subrange(0, i as int);
        let ghost kept_before = kept@;
        let is_runner = str_has_prefix(names[i].as_str(), "GE-Proton") || str_has_prefix(
            names[i].as_str(),
            "Proton-",
        );
        if is_runner {
            kept.push(names[i].clone());
            proof {
                assert(name_views(kept@) =~= name_views(kept_before).push(
                    name_views(names@)[i as int],
                ));
            }
        }
        proof {
            reveal_with_fuel(Seq::filter, 2);
            assert(name_views(names@).subrange(0, i + 1).drop_last() =~= prefix);
            assert(name_views(names@).subrange(0, i + 1).last() == name_views(
                names@,
            )[i as int]);
            assert(name_views(kept@) =~= runner_dir_names(
                name_views(names@).subrange(0, i + 1),
            ));
        }
        i = i + 1;
    }
    proof {
        assert(name_views(names@).subrange(0, n as int) =~= name_views(names@));
    }
    kept
}

/// Two decimal places of `bytes` in the given unit, rounding half up, as
/// `<whole>.<frac>` with a two-digit fraction.
pub open spec fn scaled_str(bytes: nat, unit: nat) -> Seq<char>
    recommends
        unit >= 2,
{
    let whole = bytes / unit;
    let frac = ((bytes % unit) * 100 + unit / 2) / unit;
    let carried = if frac >= 100 {
        whole + 1
    } else {
        whole
    };
    let frac2 = if frac >= 100 {
        0nat
    } else {
        frac
    };
    dec_str(carried) + "."@ + (if frac2 < 10 {
        seq!['0', crate::text::digit_char(frac2)]
    } else {
        dec_str(frac2)
    })
}

/// The human-readable size: binary gigabytes, megabytes or kilobytes to two
/// decimal places, or plain bytes below one kilobyte.
pub open spec fn size_str(bytes: nat) -> Seq<char> {
    if bytes >= 0x40000000 {
        scaled_str(bytes, 0x40000000) + " GB"@
    } else if bytes >= 0x100000 {
        scaled_str(bytes, 0x100000) + " MB"@
    } else if bytes >= 0x400 {
        scaled_str(bytes, 0x400) + " KB"@
    } else {
        dec_str(bytes) + " B"@
    }
}

const GB: u64 = 1024 * 1024 * 1024;

const MB: u64 = 1024 * 1024;

const KB: u64 = 1024;

/// Render a file size for display.
pub fn format_size(bytes: u64) -> (r: String)
    ensures
        r@ == size_str(bytes as nat),
{
    proof {
        reveal_strlit(" GB");
        reveal_strlit(" MB");
        reveal_strlit(" KB");
        reveal_strlit(" B");
        reveal_strlit(".");
        reveal_strlit("0");
    }
    if bytes >= GB {
        let mut s = scaled_string(bytes, GB);
        s.append(" GB");
        s
    } else if bytes >= MB {
        let mut s = scaled_string(bytes, MB);
        s.append(" MB");
        s
    } else if bytes >= KB {
        let mut s = scaled_string(bytes, KB);
        s.append(" KB");
        s
    } else {
        let mut s = crate::text::u64_to_string(bytes);
        s.append(" B");
        s
    }
}

/// `<whole>.<frac>` of `bytes` in `unit`, two fraction digits, half up.
fn scaled_string(bytes: u64, unit: u64) -> (r: String)
    requires
        1024 <= unit <= 0x40000000,
        unit % 2 == 0,
    ensures
        r@ == scaled_str(bytes as nat, unit as nat),
{
    let whole = bytes / unit;
    let rem = bytes % unit;
    proof {
        assert(rem < unit);
        assert(rem * 100 <= 0x3fffffff * 100);
    }
    let frac = (rem * 100 + unit / 2) / unit;
    proof {
        let u = unit as int;
        let rm = rem as int;
        assert(rm * 100 + u / 2 < u * 100 + u) by (nonlinear_arith)
            requires
                rm < u,
                u >= 1024,
        ;
        assert((rm * 100 + u / 2) / u < 101) by (nonlinear_arith)
            requires
                rm * 100 + u / 2 < u * 100 + u,
                u >= 1024,
                rm >= 0,
        ;
        assert(frac < 101);
        let w = whole as int;
        let b = bytes as int;
        assert(w <= b / 1024) by (nonlinear_arith)
            requires
                w == b / (unit as int),
                unit as int >= 1024,
                b >= 0,
        ;
        reveal_strlit("0");
    }
    let carried = if frac >= 100 {
        whole + 1
    } else {
        whole
    };
    let frac2 = if frac >= 100 {
        0
    } else {
        frac
    };
    let mut s = crate::text::u64_to_string(carried);
    s.append(".");
    if frac2 < 10 {
        s.append("0");
        s.append(crate::text::u64_to_string(frac2).as_str());
        proof {
            assert(seq!['0'] + dec_str(frac2 as nat) =~= seq![
                '0',
                crate::text::digit_char(frac2 as nat),
            ]);
        }
    } else {
        s.append(crate::text::u64_to_string(frac2).as_str());
    }
    s
}

} // verus!
