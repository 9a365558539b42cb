//! The user-settings document: fixed defaults, a canonical serialized form,
//! and a parser that inverts it exactly. The document is one JSON object
//! with the target application version, a custom install-path override, and
//! the auto-backup flag. String values are written with `"` and `\` escaped
//! by a backslash; every other character stands for itself.

use vstd::prelude::*;
use crate::text::chars_vec;
use crate::text::string_from_chars;

verus! {

/// User preferences, loaded at startup and persisted wholesale on save.
pub struct Settings {
    pub blender_version: String,
    pub custom_path: String,
    pub auto_backup: bool,
}

/// A string value's characters with `"` and `\` escaped.
pub open spec fn esc(s: Seq<char>) -> Seq<char>
    decreases s.len(),
{
    if s.len() == 0 {
        Seq::empty()
    } else if s[0] == '"' || s[0] == '\\' {
        seq!['\\', s[0]] + esc(s.skip(1))
    } else {
        seq![s[0]] + esc(s.skip(1))
    }
}

/// Reads an escaped string value up to and including its closing quote:
/// the value's characters, and the rest of the input after the quote.
pub open spec fn scan_str(t: Seq<char>) -> Option<(Seq<char>, Seq<char>)>
    decreases t.len(),
{
    if t.len() == 0 {
        None
    } else if t[0] == '"' {
        Some((Seq::empty(), t.skip(1)))
    } else if t[0] == '\\' {
        if t.len() >= 2 && (t[1] == '"' || t[1] == '\\') {
            match scan_str(t.skip(2)) {
                Some(pr) => Some((seq![t[1]] + pr.0, pr.1)),
                None => None,
            }
        } else {
            None
        }
    } else {
        match scan_str(t.skip(1)) {
            Some(pr) => Some((seq![t[0]] + pr.0, pr.1)),
            None => None,
        }
    }
}

/// Reads the exact literal `l` off the front of `t`.
pub open spec fn expect(t: Seq<char>, l: Seq<char>) -> Option<Seq<char>> {
    if l.len() <= t.len() && t.take(l.len() as int) == l {
        Some(t.skip(l.len() as int))
    } else {
        None
    }
}

/// The serialized form of a boolean.
pub open spec fn bool_text(b: bool) -> Seq<char> {
    if b {
        "true"@
    } else {
        "false"@
    }
}

/// The canonical serialized settings document.
pub open spec fn ser_spec(v: Seq<char>, p: Seq<char>, b: bool) -> Seq<char> {
    "{\n  \"blenderVersion\": \""@ + esc(v) + seq!['"'] + ",\n  \"customPath\": \""@ + esc(p)
        + seq!['"'] + ",\n  \"autoBackup\": "@ + bool_text(b) + "\n}"@
}

/// The parsed settings document: the two string values and the flag, or
/// nothing when `t` is not a canonical document.
pub open spec fn parse_spec(t: Seq<char>) -> Option<(Seq<char>, Seq<char>, bool)> {
    match expect(t, "{\n  \"blenderVersion\": \""@) {
        None => None,
        Some(t1) => match scan_str(t1) {
            None => None,
            Some(pr1) => match expect(pr1.1, ",\n  \"customPath\": \""@) {
                None => None,
                Some(t2) => match scan_str(t2) {
                    None => None,
                    Some(pr2) => match expect(pr2.1, ",\n  \"autoBackup\": "@) {
                        None => None,
                        Some(t3) => match expect(t3, "true"@) {
                            Some(t4) => if t4 == "\n}"@ {
                                Some((pr1.0, pr2.0, true))
                            } else {
                                None
                            },
                            None => match expect(t3, "false"@) {
                                Some(t4) => if t4 == "\n}"@ {
                                    Some((pr1.0, pr2.0, false))
                                } else {
                                    None
                                },
                                None => None,
                            },
                        },
                    },
                },
            },
        },
    }
}

proof fn lemma_expect_concat(l: Seq<char>, r: Seq<char>)
    ensures
        expect(l + r, l) == Some(r),
{
    assert((l + r).take(l.len() as int) =~= l);
    assert((l + r).skip(l.len() as int) =~= r);
}

proof fn lemma_scan_esc(s: Seq<char>, r: Seq<char>)
    ensures
        scan_str(esc(s) + seq!['"'] + r) == Some((s, r)),
    decreases s.len(),
{
    let t = esc(s) + seq!['"'] + r;
    if s.len() == 0 {
        assert(t =~= seq!['"'] + r);
        assert(t[0] == '"');
        assert(t.skip(1) =~= r);
        assert(Seq::<char>::empty() =~= s);
    } else {
        let c = s[0];
        let s1 = s.skip(1);
        lemma_scan_esc(s1, r);
        if c == '"' || c == '\\' {
            assert(esc(s) == seq!['\\', c] + esc(s1));
            assert(t[0] == '\\');
            assert(t[1] == c);
            assert(t.len() >= 2);
            assert(t.skip(2) =~= esc(s1) + seq!['"'] + r);
            assert(seq![c] + s1 =~= s);
        } else {
            assert(esc(s) == seq![c] + esc(s1));
            assert(t[0] == c);
            assert(t.skip(1) =~= esc(s1) + seq!['"'] + r);
            assert(seq![c] + s1 =~= s);
        }
    }
}

/// Parsing inverts serialization: the document written for any settings
/// values reads back as exactly those values, whatever characters the two
/// strings hold.
pub proof fn lemma_settings_round_trip(v: Seq<char>, p: Seq<char>, b: bool)
    ensures
        parse_spec(ser_spec(v, p, b)) == Some((v, p, b)),
{
    let l1 = "{\n  \"blenderVersion\": \""@;
    let l2 = ",\n  \"customPath\": \""@;
    let l3 = ",\n  \"autoBackup\": "@;
    let tail = "\n}"@;
    let t = ser_spec(v, p, b);
    let r2 = esc(p) + seq!['"'] + (l3 + (bool_text(b) + tail));
    let r1 = esc(v) + seq!['"'] + (l2 + r2);
    assert(t =~= l1 + r1);
    lemma_expect_concat(l1, r1);
    lemma_scan_esc(v, l2 + r2);
    lemma_expect_concat(l2, r2);
    lemma_scan_esc(p, l3 + (bool_text(b) + tail));
    lemma_expect_concat(l3, bool_text(b) + tail);
    let t3 = bool_text(b) + tail;
    if b {
        assert(t3 =~= "true"@ + tail);
        lemma_expect_concat("true"@, tail);
    } else {
        assert(t3 =~= "false"@ + tail);
        lemma_expect_concat("false"@, tail);
        reveal_strlit("true");
        reveal_strlit("false");
        reveal_strlit("\n}");
        assert(t3.len() >= "true"@.len());
        assert(t3.take("true"@.len() as int)[0] == 'f');
        assert("true"@[0] == 't');
        assert(t3.take("true"@.len() as int) != "true"@);
        assert(expect(t3, "true"@) is None);
    }
}

/// Appends the escaped form of `s` to `out`.
fn append_escaped(out: &mut String, s: &str)
    ensures
        final(out)@ == old(out)@ + esc(s@),
{
    let v = chars_vec(s);
    let n = v.len();
    let mut i: usize = 0;
    proof {
        assert(s@.skip(0) =~= s@);
    }
    while i < n
        invariant
            0 <= i <= n == v@.len(),
            v@ == s@,
            old(out)@ + esc(s@) == out@ + esc(s@.skip(i as int)),
        decreases n - i,
    {
        let c = v[i];
        let ghost oldo: Seq<char> = out@;
        let ghost rest: Seq<char> = s@.skip(i as int);
        proof {
            assert(rest[0] == s@[i as int]);
            assert(rest.skip(1) =~= s@.skip(i + 1));
        }
        if c == '"' || c == '\\' {
            out.push('\\');
            out.push(c);
            proof {
                assert(esc(rest) == seq!['\\', s@[i as int]] + esc(s@.skip(i + 1)));
                assert(out@ =~= oldo + seq!['\\', s@[i as int]]);
                assert(oldo + esc(rest) =~= out@ + esc(s@.skip(i + 1)));
            }
        } else {
            out.push(c);
            proof {
                assert(esc(rest) == seq![s@[i as int]] + esc(s@.skip(i + 1)));
                assert(out@ =~= oldo + seq![s@[i as int]]);
                assert(oldo + esc(rest) =~= out@ + esc(s@.skip(i + 1)));
            }
        }
        i = i + 1;
    }
    proof {
        assert(s@.skip(n as int) =~= Seq::<char>::empty());
        assert(esc(Seq::<char>::empty()) == Seq::<char>::empty());
        assert(out@ + Seq::<char>::empty() =~= out@);
    }
}

/// The canonical serialized document for `s`, the one the host writes to
/// the settings file, whole or not at all.
pub fn serialize_settings(s: &Settings) -> (r: String)
    ensures
        r@ == ser_spec(s.blender_version@, s.custom_path@, s.auto_backup),
{
    let mut out = String::from_str("{\n  \"blenderVersion\": \"");
    append_escaped(&mut out, s.blender_version.as_str());
    out.append("\"");
    out.append(",\n  \"customPath\": \"");
    append_escaped(&mut out, s.custom_path.as_str());
    out.append("\"");
    out.append(",\n  \"autoBackup\": ");
    if s.auto_backup {
        out.append("true");
    } else {
        out.append("false");
    }
    out.append("\n}");
    proof {
        reveal_strlit("\"");
        assert("\""@ =~= seq!['"']);
        assert(out@ =~= ser_spec(s.blender_version@, s.custom_path@, s.auto_backup));
    }
    out
}

/// Reads the exact literal `lit` at position `i` of `v`; the position after
/// it on success.
fn expect_at(v: &Vec<char>, i: usize, lit: &str) -> (r: Option<usize>)
    requires
        i <= v@.len(),
    ensures
        match r {
            Some(j) => i <= j <= v@.len() && j == i + lit@.len() && expect(
                v@.skip(i as int),
                lit@,
            ) == Some(v@.skip(j as int)),
            None => expect(v@.skip(i as int), lit@) is None,
        },
{
    let ln = lit.unicode_len();
    if v.len() - i < ln {
        return None;
    }
    let mut k: usize = 0;
    while k < ln
        invariant
            0 <= k <= ln == lit@.len(),
            i + ln <= v@.len() <= usize::MAX,
            forall|m: int| 0 <= m < k ==> v@[i + m] == lit@[m],
        decreases ln - k,
    {
        if v[i + k] != lit.get_char(k) {
            proof {
                assert(v@.skip(i as int).take(ln as int)[k as int] == v@[i + k]);
            }
            return None;
        }
        k = k + 1;
    }
    proof {
        assert(v@.skip(i as int).take(ln as int) =~= lit@);
        assert(v@.skip(i as int).skip(ln as int) =~= v@.skip(i + ln));
    }
    Some(i + ln)
}

/// What remains to be read: reading the whole input from `t0` succeeds
/// exactly when reading on from `t` does, with `acc` already read.
spec fn scan_cont(t0: Seq<char>, acc: Seq<char>, t: Seq<char>) -> bool {
    match scan_str(t) {
        Some(pr) => scan_str(t0) == Some((acc + pr.0, pr.1)),
        None => scan_str(t0) is None,
    }
}

/// Reads an escaped string value starting at `start`, up to and including
/// its closing quote; the value and the position after the quote.
fn scan_at(v: &Vec<char>, start: usize) -> (r: Option<(String, usize)>)
    requires
        start <= v@.len(),
    ensures
        match r {
            Some(pr) => start <= pr.1 <= v@.len() && scan_str(v@.skip(start as int)) == Some(
                (pr.0@, v@.skip(pr.1 as int)),
            ),
            None => scan_str(v@.skip(start as int)) is None,
        },
{
    let ghost t0: Seq<char> = v@.skip(start as int);
    let n = v.len();
    let mut content: Vec<char> = Vec::new();
    let mut j: usize = start;
    proof {
        match scan_str(t0) {
            Some(pr) => {
                assert(Seq::<char>::empty() + pr.0 =~= pr.0);
            },
            None => {},
        }
    }
    while j < n
        invariant
            start <= j <= n == v@.len(),
            t0 == v@.skip(start as int),
            scan_cont(t0, content@, v@.skip(j as int)),
        decreases n - j,
    {
        let c = v[j];
        let ghost tj: Seq<char> = v@.skip(j as int);
        proof {
            assert(tj[0] == v@[j as int]);
        }
        if c == '"' {
            proof {
                assert(tj.skip(1) =~= v@.skip(j + 1));
                assert(scan_str(tj) == Some((Seq::<char>::empty(), v@.skip(j + 1))));
                assert(content@ + Seq::<char>::empty() =~= content@);
            }
            let value = string_from_chars(&content);
            return Some((value, j + 1));
        } else if c == '\\' {
            if j + 1 >= n {
                proof {
                    assert(tj.len() < 2);
                    assert(scan_str(tj) is None);
                }
                return None;
            }
            let c2 = v[j + 1];
            proof {
                assert(tj.len() >= 2);
                assert(tj[1] == v@[j + 1]);
            }
            if c2 != '"' && c2 != '\\' {
                proof {
                    assert(scan_str(tj) is None);
                }
                return None;
            }
            let ghost oldc: Seq<char> = content@;
            content.push(c2);
            proof {
                assert(tj.skip(2) =~= v@.skip(j + 2));
                match scan_str(v@.skip(j + 2)) {
                    Some(pr) => {
                        assert(scan_str(tj) == Some((seq![v@[j + 1]] + pr.0, pr.1)));
                        assert(oldc + (seq![v@[j + 1]] + pr.0) =~= content@ + pr.0);
                    },
                    None => {
                        assert(scan_str(tj) is None);
                    },
                }
            }
            j = j + 2;
        } else {
            let ghost oldc: Seq<char> = content@;
            content.push(c);
            proof {
                assert(tj.skip(1) =~= v@.skip(j + 1));
                match scan_str(v@.skip(j + 1)) {
                    Some(pr) => {
                        assert(scan_str(tj) == Some((seq![v@[j as int]] + pr.0, pr.1)));
                        assert(oldc + (seq![v@[j as int]] + pr.0) =~= content@ + pr.0);
                    },
                    None => {
                        assert(scan_str(tj) is None);
                    },
                }
            }
            j = j + 1;
        }
    }
    proof {
        assert(v@.skip(n as int) =~= Seq::<char>::empty());
        assert(scan_str(Seq::<char>::empty()) is None);
    }
    None
}

/// Reads a canonical settings document back into its values. Anything but
/// a canonical document is rejected.
pub fn parse_settings(text: &str) -> (r: Option<Settings>)
    ensures
        match r {
            Some(s) => parse_spec(text@) == Some(
                (s.blender_version@, s.custom_path@, s.auto_backup),
            ),
            None => parse_spec(text@) is None,
        },
{
    let v = chars_vec(text);
    let n = v.len();
    proof {
        assert(v@.skip(0) =~= text@);
    }
    let j1 = match expect_at(&v, 0, "{\n  \"blenderVersion\": \"") {
        Some(j) => j,
        None => {
            return None;
        },
    };
    let (bv, j2) = match scan_at(&v, j1) {
        Some(pr) => pr,
        None => {
            return None;
        },
    };
    let j3 = match expect_at(&v, j2, ",\n  \"customPath\": \"") {
        Some(j) => j,
        None => {
            return None;
        },
    };
    let (cp, j4) = match scan_at(&v, j3) {
        Some(pr) => pr,
        None => {
            return None;
        },
    };
    let j5 = match expect_at(&v, j4, ",\n  \"autoBackup\": ") {
        Some(j) => j,
        None => {
            return None;
        },
    };
    let (ab, j6) = match expect_at(&v, j5, "true") {
        Some(j) => (true, j),
        None => {
            match expect_at(&v, j5, "false") {
                Some(j) => (false, j),
                None => {
                    return None;
                },
            }
        },
    };
    let ghost t4: Seq<char> = v@.skip(j6 as int);
    match expect_at(&v, j6, "\n}") {
        Some(j7) => {
            if j7 == n {
                proof {
                    assert(v@.skip(j7 as int) =~= Seq::<char>::empty());
                    assert(t4.take("\n}"@.len() as int) == "\n}"@);
                    assert(t4 =~= "\n}"@ + v@.skip(j7 as int));
                    assert("\n}"@ + Seq::<char>::empty() =~= "\n}"@);
                }
                Some(Settings { blender_version: bv, custom_path: cp, auto_backup: ab })
            } else {
                proof {
                    assert(t4.len() > "\n}"@.len());
                }
                None
            }
        },
        None => {
            proof {
                if t4 == "\n}"@ {
                    assert(t4.take("\n}"@.len() as int) =~= "\n}"@);
                }
            }
            None
        },
    }
}

/// The literal defaults used when no settings file exists.
pub fn default_settings() -> (r: Settings)
    ensures
        r.blender_version@ == "5.0"@,
        r.custom_path@ == ""@,
        r.auto_backup == true,
{
    Settings {
        blender_version: String::from_str("5.0"),
        custom_path: String::from_str(""),
        auto_backup: true,
    }
}

/// Loads the settings from the file's contents, or the fixed defaults when
/// no file exists. A file that is not a canonical document is a parse
/// failure, not a silent fallback to defaults.
pub fn load_settings(contents: &Option<String>) -> (r: Result<Settings, String>)
    ensures
        match contents {
            None => r matches Ok(s) && s.blender_version@ == "5.0"@ && s.custom_path@ == ""@
                && s.auto_backup == true,
            Some(text) => match r {
                Ok(s) => parse_spec(text@) == Some(
                    (s.blender_version@, s.custom_path@, s.auto_backup),
                ),
                Err(m) => parse_spec(text@) is None && m@ == "Failed to parse settings"@,
            },
        },
{
    match contents {
        None => Ok(default_settings()),
        Some(text) => match parse_settings(text.as_str()) {
            Some(s) => Ok(s),
            None => Err(String::from_str("Failed to parse settings")),
        },
    }
}

} // verus!
