//! The protocol's typed messages: the request a client sends, the
//! response a server answers with, and the launch command that starts
//! a server.
//!
//! A request is serialized to the canonical compact document
//! `{"argv":[…],"env":{…},"cwd":"…"}` and is parsed back from exactly
//! that shape; serializing any request and parsing the result yields
//! the identical argv, env and cwd.  Responses and launch commands
//! come from outside; their parsers tolerate whitespace around every
//! token and absent optional members — the response's two members in
//! either order, a replace directive's and a launch command's members
//! in their canonical order.  Anything else is a protocol violation
//! and parses to nothing.

use vstd::prelude::*;
use vstd::assert_seqs_equal;
use crate::json::{
    quoted, ser_str_arr, ser_str_map, sp_string, sp_str_arr, sp_str_map, sp_int, sp_ws,
    write_quoted, write_str_arr, write_str_map, parse_string, parse_str_arr, parse_str_map,
    parse_int, skip_ws, lemma_string_advances, lemma_arr_advances, lemma_map_advances,
    lemma_int_advances, lemma_string_round_trip, lemma_arr_round_trip, lemma_map_round_trip,
    unique_keys,
};
use crate::strings::{views_of, pair_views_of, chars_of, string_from_chars, eq_chars};

verus! {

/// One client invocation: the forwarded arguments, environment and
/// working directory.  The reserved control flags are already
/// stripped from `argv`, and the environment keys are unique.
pub struct Request {
    pub argv: Vec<String>,
    pub env: Vec<(String, String)>,
    pub cwd: String,
}

/// A request's well-formedness: its environment keys are unique.
pub open spec fn request_wf(r: Request) -> bool {
    unique_keys(pair_views_of(r.env@))
}

/// The canonical compact text of a request.
pub open spec fn ser_request(
    argv: Seq<Seq<char>>,
    env: Seq<(Seq<char>, Seq<char>)>,
    cwd: Seq<char>,
) -> Seq<char> {
    seq!['{'] + quoted("argv"@) + seq![':'] + ser_str_arr(argv) + seq![','] + quoted("env"@)
        + seq![':'] + ser_str_map(env) + seq![','] + quoted("cwd"@) + seq![':'] + quoted(cwd)
        + seq!['}']
}

/// Parses the canonical compact request document.  Anything else —
/// another member order, whitespace, further members — is rejected.
pub open spec fn sp_parse_request(s: Seq<char>) -> Option<
    (Seq<Seq<char>>, Seq<(Seq<char>, Seq<char>)>, Seq<char>),
> {
    if !(0 < s.len() && s[0] == '{') {
        None
    } else {
        match sp_string(s, 1) {
            None => None,
            Some((k1, n1)) => {
                if k1 != "argv"@ || !(n1 < s.len() && s[n1] == ':') {
                    None
                } else {
                    match sp_str_arr(s, n1 + 1) {
                        None => None,
                        Some((argv, n2)) => {
                            if !(n2 < s.len() && s[n2] == ',') {
                                None
                            } else {
                                match sp_string(s, n2 + 1) {
                                    None => None,
                                    Some((k2, n3)) => {
                                        if k2 != "env"@ || !(n3 < s.len() && s[n3] == ':') {
                                            None
                                        } else {
                                            match sp_str_map(s, n3 + 1) {
                                                None => None,
                                                Some((env, n4)) => {
                                                    if !(n4 < s.len() && s[n4] == ',') {
                                                        None
                                                    } else {
                                                        match sp_string(s, n4 + 1) {
                                                            None => None,
                                                            Some((k3, n5)) => {
                                                                if k3 != "cwd"@ || !(n5 < s.len()
                                                                    && s[n5] == ':') {
                                                                    None
                                                                } else {
                                                                    match sp_string(s, n5 + 1) {
                                                                        None => None,
                                                                        Some((cwd, n6)) => {
                                                                            if n6 < s.len() && s[n6]
                                                                                == '}' && n6 + 1
                                                                                == s.len() {
                                                                                Some(
                                                                                    (argv, env, cwd),
                                                                                )
                                                                            } else {
                                                                                None
                                                                            }
                                                                        },
                                                                    }
                                                                }
                                                            },
                                                        }
                                                    }
                                                },
                                            }
                                        }
                                    },
                                }
                            }
                        },
                    }
                }
            },
        }
    }
}

/// Serializes a request to its canonical compact text.
pub fn serialize_request(r: &Request) -> (out: String)
    ensures
        out@ == ser_request(views_of(r.argv@), pair_views_of(r.env@), r.cwd@),
{
    let mut buf: Vec<char> = Vec::new();
    buf.push('{');
    let ka = chars_of("argv");
    write_quoted(&mut buf, &ka);
    buf.push(':');
    write_str_arr(&mut buf, &r.argv);
    buf.push(',');
    let ke = chars_of("env");
    write_quoted(&mut buf, &ke);
    buf.push(':');
    write_str_map(&mut buf, &r.env);
    buf.push(',');
    let kc = chars_of("cwd");
    write_quoted(&mut buf, &kc);
    buf.push(':');
    let cw = chars_of(r.cwd.as_str());
    write_quoted(&mut buf, &cw);
    buf.push('}');
    proof {
        assert(buf@ =~= ser_request(views_of(r.argv@), pair_views_of(r.env@), r.cwd@));
    }
    string_from_chars(&buf)
}

/// Parses the canonical compact request document back into a request.
/// The returned environment keys are unique.
pub fn parse_request(s: &str) -> (r: Option<Request>)
    ensures
        r is None ==> sp_parse_request(s@) is None,
        r is Some ==> sp_parse_request(s@) == Some(
            (views_of((r->0).argv@), pair_views_of((r->0).env@), (r->0).cwd@),
        ),
        r is Some ==> unique_keys(pair_views_of((r->0).env@)),
{
    let cs = chars_of(s);
    if cs.len() == 0 || cs[0] != '{' {
        return None;
    }
    let ka = chars_of("argv");
    let ke = chars_of("env");
    let kc = chars_of("cwd");
    let k1 = match parse_string(&cs, 1) {
        None => {
            return None;
        },
        Some(x) => x,
    };
    if !eq_chars(&k1.0, &ka) {
        return None;
    }
    proof {
        lemma_string_advances(s@, 1);
    }
    let n1 = k1.1;
    if !(n1 < cs.len() && cs[n1] == ':') {
        return None;
    }
    let argv = match parse_str_arr(&cs, n1 + 1) {
        None => {
            return None;
        },
        Some(x) => x,
    };
    proof {
        lemma_arr_advances(s@, n1 as int + 1);
    }
    let n2 = argv.1;
    if !(n2 < cs.len() && cs[n2] == ',') {
        return None;
    }
    let k2 = match parse_string(&cs, n2 + 1) {
        None => {
            return None;
        },
        Some(x) => x,
    };
    if !eq_chars(&k2.0, &ke) {
        return None;
    }
    proof {
        lemma_string_advances(s@, n2 as int + 1);
    }
    let n3 = k2.1;
    if !(n3 < cs.len() && cs[n3] == ':') {
        return None;
    }
    let env = match parse_str_map(&cs, n3 + 1) {
        None => {
            return None;
        },
        Some(x) => x,
    };
    proof {
        lemma_map_advances(s@, n3 as int + 1);
    }
    let n4 = env.1;
    if !(n4 < cs.len() && cs[n4] == ',') {
        return None;
    }
    let k3 = match parse_string(&cs, n4 + 1) {
        None => {
            return None;
        },
        Some(x) => x,
    };
    if !eq_chars(&k3.0, &kc) {
        return None;
    }
    proof {
        lemma_string_advances(s@, n4 as int + 1);
    }
    let n5 = k3.1;
    if !(n5 < cs.len() && cs[n5] == ':') {
        return None;
    }
    let cwd = match parse_string(&cs, n5 + 1) {
        None => {
            return None;
        },
        Some(x) => x,
    };
    let n6 = cwd.1;
    if !(n6 < cs.len() && cs[n6] == '}' && n6 + 1 == cs.len()) {
        return None;
    }
    let cwd_str = string_from_chars(&cwd.0);
    Some(Request { argv: argv.0, env: env.0, cwd: cwd_str })
}

proof fn lemma_split_suffix(full: Seq<char>, o: int, x: Seq<char>, y: Seq<char>)
    requires
        0 <= o <= full.len(),
        full.subrange(o, full.len() as int) == x + y,
    ensures
        o + x.len() <= full.len(),
        full.subrange(o, o + x.len()) == x,
        full.subrange(o + x.len(), full.len() as int) == y,
{
    assert((x + y).len() == full.len() - o);
    assert_seqs_equal!(full.subrange(o, o + x.len()) == x, k => {
        assert(full.subrange(o, full.len() as int)[k] == (x + y)[k]);
        assert(full.subrange(o, full.len() as int)[k] == full[o + k]);
        assert(full.subrange(o, o + x.len())[k] == full[o + k]);
    });
    assert_seqs_equal!(full.subrange(o + x.len(), full.len() as int) == y, k => {
        assert(full.subrange(o, full.len() as int)[x.len() + k] == (x + y)[x.len() + k]);
        assert(full.subrange(o, full.len() as int)[x.len() + k] == full[o + x.len() + k]);
        assert(full.subrange(o + x.len(), full.len() as int)[k] == full[o + x.len() + k]);
    });
}

proof fn lemma_assoc(a: Seq<char>, b: Seq<char>, c: Seq<char>)
    ensures
        (a + b) + c == a + (b + c),
{
    assert((a + b) + c =~= a + (b + c));
}

proof fn lemma_req_text_assoc(argv: Seq<Seq<char>>, env: Seq<(Seq<char>, Seq<char>)>, cwd: Seq<char>)
    ensures
        ser_request(argv, env, cwd) == seq!['{'] + (quoted("argv"@) + (seq![':'] + (ser_str_arr(
            argv,
        ) + (seq![','] + (quoted("env"@) + (seq![':'] + (ser_str_map(env) + (seq![','] + (quoted(
            "cwd"@,
        ) + (seq![':'] + (quoted(cwd) + seq!['}']))))))))))),
{
    let ka = quoted("argv"@);
    let ke = quoted("env"@);
    let kc = quoted("cwd"@);
    let va = ser_str_arr(argv);
    let ve = ser_str_map(env);
    let vc = quoted(cwd);
    let l1 = seq!['{'];
    let l2 = l1 + ka;
    let l3 = l2 + seq![':'];
    let l4 = l3 + va;
    let l5 = l4 + seq![','];
    let l6 = l5 + ke;
    let l7 = l6 + seq![':'];
    let l8 = l7 + ve;
    let l9 = l8 + seq![','];
    let l10 = l9 + kc;
    let l11 = l10 + seq![':'];
    let l12 = l11 + vc;
    let s12: Seq<char> = seq!['}'];
    let s11 = vc + s12;
    let s10 = seq![':'] + s11;
    let s9 = kc + s10;
    let s8 = seq![','] + s9;
    let s7 = ve + s8;
    let s6 = seq![':'] + s7;
    let s5 = ke + s6;
    let s4 = seq![','] + s5;
    let s3 = va + s4;
    let s2 = seq![':'] + s3;
    let s1 = ka + s2;
    assert(ser_request(argv, env, cwd) == l12 + s12);
    lemma_assoc(l11, vc, s12);
    lemma_assoc(l10, seq![':'], s11);
    lemma_assoc(l9, kc, s10);
    lemma_assoc(l8, seq![','], s9);
    lemma_assoc(l7, ve, s8);
    lemma_assoc(l6, seq![':'], s7);
    lemma_assoc(l5, ke, s6);
    lemma_assoc(l4, seq![','], s5);
    lemma_assoc(l3, va, s4);
    lemma_assoc(l2, seq![':'], s3);
    lemma_assoc(l1, ka, s2);
}

/// Law: any well-formed request — environment keys unique, all
/// strings arbitrary — serialized and parsed back yields the identical
/// argv, env and cwd.
#[verifier::rlimit(100)]
pub proof fn lemma_request_round_trip(
    argv: Seq<Seq<char>>,
    env: Seq<(Seq<char>, Seq<char>)>,
    cwd: Seq<char>,
)
    requires
        unique_keys(env),
    ensures
        sp_parse_request(ser_request(argv, env, cwd)) == Some((argv, env, cwd)),
{
    let full = ser_request(argv, env, cwd);
    let ka = quoted("argv"@);
    let ke = quoted("env"@);
    let kc = quoted("cwd"@);
    let va = ser_str_arr(argv);
    let ve = ser_str_map(env);
    let vc = quoted(cwd);
    let s12: Seq<char> = seq!['}'];
    let s11 = vc + s12;
    let s10 = seq![':'] + s11;
    let s9 = kc + s10;
    let s8 = seq![','] + s9;
    let s7 = ve + s8;
    let s6 = seq![':'] + s7;
    let s5 = ke + s6;
    let s4 = seq![','] + s5;
    let s3 = va + s4;
    let s2 = seq![':'] + s3;
    let s1 = ka + s2;
    lemma_req_text_assoc(argv, env, cwd);
    assert(full == seq!['{'] + s1);
    assert(full.subrange(0, full.len() as int) =~= seq!['{'] + s1);
    lemma_split_suffix(full, 0, seq!['{'], s1);
    assert(full[0] == '{') by {
        assert(full.subrange(0, 1)[0] == '{');
    }
    lemma_split_suffix(full, 1, ka, s2);
    lemma_string_round_trip(full, 1, "argv"@);
    let n1 = 1 + ka.len() as int;
    lemma_split_suffix(full, n1, seq![':'], s3);
    assert(full[n1] == ':') by {
        assert(full.subrange(n1, n1 + 1)[0] == ':');
    }
    lemma_split_suffix(full, n1 + 1, va, s4);
    lemma_arr_round_trip(full, n1 + 1, argv);
    let n2 = n1 + 1 + va.len() as int;
    lemma_split_suffix(full, n2, seq![','], s5);
    assert(full[n2] == ',') by {
        assert(full.subrange(n2, n2 + 1)[0] == ',');
    }
    lemma_split_suffix(full, n2 + 1, ke, s6);
    lemma_string_round_trip(full, n2 + 1, "env"@);
    let n3 = n2 + 1 + ke.len() as int;
    lemma_split_suffix(full, n3, seq![':'], s7);
    assert(full[n3] == ':') by {
        assert(full.subrange(n3, n3 + 1)[0] == ':');
    }
    lemma_split_suffix(full, n3 + 1, ve, s8);
    lemma_map_round_trip(full, n3 + 1, env);
    let n4 = n3 + 1 + ve.len() as int;
    lemma_split_suffix(full, n4, seq![','], s9);
    assert(full[n4] == ',') by {
        assert(full.subrange(n4, n4 + 1)[0] == ',');
    }
    lemma_split_suffix(full, n4 + 1, kc, s10);
    lemma_string_round_trip(full, n4 + 1, "cwd"@);
    let n5 = n4 + 1 + kc.len() as int;
    lemma_split_suffix(full, n5, seq![':'], s11);
    assert(full[n5] == ':') by {
        assert(full.subrange(n5, n5 + 1)[0] == ':');
    }
    lemma_split_suffix(full, n5 + 1, vc, s12);
    lemma_string_round_trip(full, n5 + 1, cwd);
    let n6 = n5 + 1 + vc.len() as int;
    lemma_split_suffix(full, n6, seq!['}'], Seq::empty());
    assert(full[n6] == '}') by {
        assert(full.subrange(n6, n6 + 1)[0] == '}');
    }
    assert(n6 + 1 == full.len());
    assert(ka == quoted("argv"@) && "argv"@ == "argv"@);
}

/// Law: serializing any well-formed request and parsing the text back
/// yields the identical argv, env and cwd.  Stated over the views that
/// [`serialize_request`] and [`parse_request`] promise.
pub proof fn lemma_request_round_trip_for(r: Request)
    requires
        request_wf(r),
    ensures
        sp_parse_request(ser_request(views_of(r.argv@), pair_views_of(r.env@), r.cwd@)) == Some(
            (views_of(r.argv@), pair_views_of(r.env@), r.cwd@),
        ),
{
    lemma_request_round_trip(views_of(r.argv@), pair_views_of(r.env@), r.cwd@);
}

/// A directive to replace the current process image.  Absent optional
/// members mean "inherit the current process's value".
pub struct ReplaceProcess {
    pub program: String,
    pub args: Option<Vec<String>>,
    pub env: Option<Vec<(String, String)>>,
    pub cwd: Option<String>,
}

/// What the server decided: terminate with a status, or replace the
/// process image.  Exactly one of the two.
pub enum Response {
    Exit(i32),
    Replace(ReplaceProcess),
}

/// The specification-level image of a replace directive.
pub struct ReplaceV {
    pub program: Seq<char>,
    pub args: Option<Seq<Seq<char>>>,
    pub env: Option<Seq<(Seq<char>, Seq<char>)>>,
    pub cwd: Option<Seq<char>>,
}

/// The specification-level image of a response.
pub enum RespV {
    Exit(int),
    Replace(ReplaceV),
}

/// The view of a replace directive.
pub open spec fn replace_view(r: ReplaceProcess) -> ReplaceV {
    ReplaceV {
        program: r.program@,
        args: match r.args {
            Some(a) => Some(views_of(a@)),
            None => None,
        },
        env: match r.env {
            Some(e) => Some(pair_views_of(e@)),
            None => None,
        },
        cwd: match r.cwd {
            Some(c) => Some(c@),
            None => None,
        },
    }
}

/// The view of a response.
pub open spec fn response_view(r: Response) -> RespV {
    match r {
        Response::Exit(c) => RespV::Exit(c as int),
        Response::Replace(rp) => RespV::Replace(replace_view(rp)),
    }
}

/// Whether `s` holds the literal `null` at `pos`.
pub open spec fn sp_null_at(s: Seq<char>, pos: int) -> bool {
    pos >= 0 && pos + 4 <= s.len() && s[pos] == 'n' && s[pos + 1] == 'u' && s[pos + 2] == 'l' && s[
        pos + 3] == 'l'
}

/// Parses a replace directive object at `pos`: `program` first and
/// required, then optionally `args`, `env` and `cwd`, in that order,
/// with whitespace tolerated around every token.
pub open spec fn sp_replace(s: Seq<char>, pos: int) -> Option<(ReplaceV, int)> {
    if !(0 <= pos < s.len() && s[pos] == '{') {
        None
    } else {
        match sp_member_str(s, sp_ws(s, pos + 1), "program"@) {
            None => None,
            Some((program, n1)) => {
                let (args, n2) = if sp_comma_key(s, n1, "args"@) is Some {
                    let ck = sp_comma_key(s, n1, "args"@)->0;
                    match sp_str_arr(s, ck) {
                        None => (Option::<Seq<Seq<char>>>::None, -1),
                        Some((a, np)) => (Some(a), np),
                    }
                } else {
                    (Option::<Seq<Seq<char>>>::None, n1)
                };
                if n2 < 0 {
                    None
                } else {
                    let (envm, n3) = if sp_comma_key(s, n2, "env"@) is Some {
                        let ck = sp_comma_key(s, n2, "env"@)->0;
                        match sp_str_map(s, ck) {
                            None => (Option::<Seq<(Seq<char>, Seq<char>)>>::None, -1),
                            Some((e, np)) => (Some(e), np),
                        }
                    } else {
                        (Option::<Seq<(Seq<char>, Seq<char>)>>::None, n2)
                    };
                    if n3 < 0 {
                        None
                    } else {
                        let (cwd, n4) = if sp_comma_key(s, n3, "cwd"@) is Some {
                            let ck = sp_comma_key(s, n3, "cwd"@)->0;
                            match sp_string(s, ck) {
                                None => (Option::<Seq<char>>::None, -1),
                                Some((c, np)) => (Some(c), np),
                            }
                        } else {
                            (Option::<Seq<char>>::None, n3)
                        };
                        if n4 < 0 {
                            None
                        } else {
                            let e = sp_ws(s, n4);
                            if 0 <= e < s.len() && s[e] == '}' {
                                Some((ReplaceV { program, args, env: envm, cwd }, e + 1))
                            } else {
                                None
                            }
                        }
                    }
                }
            },
        }
    }
}

/// Parses `"key" ws : ws <string value>` starting at `pos` (after any
/// leading whitespace was already skipped by the caller), for the
/// given expected key.
pub open spec fn sp_member_str(s: Seq<char>, pos: int, key: Seq<char>) -> Option<(Seq<char>, int)> {
    match sp_string(s, pos) {
        None => None,
        Some((k, np)) => {
            if k != key {
                None
            } else {
                let q = sp_ws(s, np);
                if 0 <= q < s.len() && s[q] == ':' {
                    sp_string(s, sp_ws(s, q + 1))
                } else {
                    None
                }
            }
        },
    }
}

/// If a comma followed by exactly the given key and a colon stands at
/// `pos` (whitespace tolerated), the position of the member's value;
/// `None` otherwise.
pub open spec fn sp_comma_key(s: Seq<char>, pos: int, key: Seq<char>) -> Option<int> {
    let u = sp_ws(s, pos);
    if !(0 <= u < s.len() && s[u] == ',') {
        None
    } else {
        match sp_string(s, sp_ws(s, u + 1)) {
            None => None,
            Some((k, np)) => {
                if k != key {
                    None
                } else {
                    let q = sp_ws(s, np);
                    if 0 <= q < s.len() && s[q] == ':' {
                        Some(sp_ws(s, q + 1))
                    } else {
                        None
                    }
                }
            },
        }
    }
}

/// Parses a whole response document: an object holding `exit_status`
/// and/or `replace_process`, in either order, each at most once.  A
/// present, non-null replace directive wins; otherwise `exit_status`
/// must be present and fit an `i32`.
pub open spec fn sp_parse_response(s: Seq<char>) -> Option<RespV> {
    let p = sp_ws(s, 0);
    if !(0 <= p < s.len() && s[p] == '{') {
        None
    } else {
        let t = sp_ws(s, p + 1);
        match sp_string(s, t) {
            None => None,
            Some((k, np)) => {
                if k == "exit_status"@ {
                    let q = sp_ws(s, np);
                    if !(0 <= q < s.len() && s[q] == ':') {
                        None
                    } else {
                        match sp_int(s, sp_ws(s, q + 1)) {
                            None => None,
                            Some((v, n1)) => {
                                if sp_comma_key(s, n1, "replace_process"@) is Some {
                                    let ck = sp_comma_key(s, n1, "replace_process"@)->0;
                                    match sp_resp_replace_value(s, ck) {
                                        None => None,
                                        Some((rp, n2)) => sp_resp_end(s, n2, Some(v), Some(rp)),
                                    }
                                } else {
                                    sp_resp_end(s, n1, Some(v), None)
                                }
                            },
                        }
                    }
                } else if k == "replace_process"@ {
                    let q = sp_ws(s, np);
                    if !(0 <= q < s.len() && s[q] == ':') {
                        None
                    } else {
                        match sp_resp_replace_value(s, sp_ws(s, q + 1)) {
                            None => None,
                            Some((rp, n2)) => {
                                if sp_comma_key(s, n2, "exit_status"@) is Some {
                                    let ck = sp_comma_key(s, n2, "exit_status"@)->0;
                                    match sp_int(s, ck) {
                                        None => None,
                                        Some((v, n3)) => sp_resp_end(s, n3, Some(v), Some(rp)),
                                    }
                                } else {
                                    sp_resp_end(s, n2, None, Some(rp))
                                }
                            },
                        }
                    }
                } else {
                    None
                }
            },
        }
    }
}

/// Parses the value of `replace_process`: `null` or a replace object.
pub open spec fn sp_resp_replace_value(s: Seq<char>, pos: int) -> Option<(Option<ReplaceV>, int)> {
    if sp_null_at(s, pos) {
        Some((None, pos + 4))
    } else {
        match sp_replace(s, pos) {
            None => None,
            Some((r, np)) => Some((Some(r), np)),
        }
    }
}

/// Finishes a response document: the closing brace, trailing
/// whitespace, end of input — then the decision.
pub open spec fn sp_resp_end(
    s: Seq<char>,
    pos: int,
    status: Option<int>,
    rp: Option<Option<ReplaceV>>,
) -> Option<RespV> {
    let e = sp_ws(s, pos);
    if !(0 <= e < s.len() && s[e] == '}' && sp_ws(s, e + 1) == s.len()) {
        None
    } else {
        match rp {
            Some(Some(r)) => Some(RespV::Replace(r)),
            _ => match status {
                Some(v) => if -0x8000_0000 <= v <= 0x7FFF_FFFF {
                    Some(RespV::Exit(v))
                } else {
                    None
                },
                None => None,
            },
        }
    }
}

/// Executable form of [`sp_null_at`].
fn null_at(s: &Vec<char>, pos: usize) -> (r: bool)
    ensures
        r == sp_null_at(s@, pos as int),
{
    pos < s.len() && s.len() - pos >= 4 && s[pos] == 'n' && s[pos + 1] == 'u' && s[pos + 2] == 'l'
        && s[pos + 3] == 'l'
}

/// Executable form of [`sp_comma_key`].
fn parse_comma_key(s: &Vec<char>, pos: usize, key: &Vec<char>) -> (r: Option<usize>)
    requires
        pos <= s@.len(),
    ensures
        r is None ==> sp_comma_key(s@, pos as int, key@) is None,
        r is Some ==> sp_comma_key(s@, pos as int, key@) == Some((r->0) as int) && r->0
            <= s@.len(),
{
    let u = skip_ws(s, pos);
    if !(u < s.len() && s[u] == ',') {
        return None;
    }
    let t = skip_ws(s, u + 1);
    let parsed = parse_string(s, t);
    if parsed.is_none() {
        return None;
    }
    let (k, np) = parsed.unwrap();
    if !eq_chars(&k, key) {
        return None;
    }
    proof {
        lemma_string_advances(s@, t as int);
    }
    let q = skip_ws(s, np);
    if !(q < s.len() && s[q] == ':') {
        return None;
    }
    Some(skip_ws(s, q + 1))
}

/// Executable form of [`sp_member_str`].
fn parse_member_str(s: &Vec<char>, pos: usize, key: &Vec<char>) -> (r: Option<(Vec<char>, usize)>)
    ensures
        r is None ==> sp_member_str(s@, pos as int, key@) is None,
        r is Some ==> sp_member_str(s@, pos as int, key@) == Some(((r->0).0@, ((r->0).1) as int))
            && (r->0).1 <= s@.len(),
{
    let parsed = parse_string(s, pos);
    if parsed.is_none() {
        return None;
    }
    let (k, np) = parsed.unwrap();
    if !eq_chars(&k, key) {
        return None;
    }
    proof {
        lemma_string_advances(s@, pos as int);
    }
    let q = skip_ws(s, np);
    if !(q < s.len() && s[q] == ':') {
        return None;
    }
    let t = skip_ws(s, q + 1);
    let parsed_v = parse_string(s, t);
    if parsed_v.is_none() {
        return None;
    }
    let (v, np2) = parsed_v.unwrap();
    proof {
        lemma_string_advances(s@, t as int);
    }
    Some((v, np2))
}

/// Parses a replace directive object at `pos`.
fn parse_replace(s: &Vec<char>, pos: usize) -> (r: Option<(ReplaceProcess, usize)>)
    ensures
        r is None ==> sp_replace(s@, pos as int) is None,
        r is Some ==> sp_replace(s@, pos as int) == Some(
            (replace_view((r->0).0), ((r->0).1) as int),
        ) && (r->0).1 <= s@.len(),
{
    if !(pos < s.len() && s[pos] == '{') {
        return None;
    }
    let p1 = skip_ws(s, pos + 1);
    let key_program = chars_of("program");
    let key_args = chars_of("args");
    let key_env = chars_of("env");
    let key_cwd = chars_of("cwd");
    let first = parse_member_str(s, p1, &key_program);
    if first.is_none() {
        return None;
    }
    let (program_chars, n1) = first.unwrap();
    let mut args: Option<Vec<String>> = None;
    let mut envm: Option<Vec<(String, String)>> = None;
    let mut cwd: Option<String> = None;
    let mut cur: usize = n1;
    match parse_comma_key(s, cur, &key_args) {
        Some(ck) => {
            let parsed = parse_str_arr(s, ck);
            if parsed.is_none() {
                return None;
            }
            let (a, np) = parsed.unwrap();
            proof {
                lemma_arr_advances(s@, ck as int);
            }
            args = Some(a);
            cur = np;
        },
        None => {},
    }
    match parse_comma_key(s, cur, &key_env) {
        Some(ck) => {
            let parsed = parse_str_map(s, ck);
            if parsed.is_none() {
                return None;
            }
            let (e, np) = parsed.unwrap();
            proof {
                lemma_map_advances(s@, ck as int);
            }
            envm = Some(e);
            cur = np;
        },
        None => {},
    }
    match parse_comma_key(s, cur, &key_cwd) {
        Some(ck) => {
            let parsed = parse_string(s, ck);
            if parsed.is_none() {
                return None;
            }
            let (c, np) = parsed.unwrap();
            proof {
                lemma_string_advances(s@, ck as int);
            }
            cwd = Some(string_from_chars(&c));
            cur = np;
        },
        None => {},
    }
    let e = skip_ws(s, cur);
    if !(e < s.len() && s[e] == '}') {
        return None;
    }
    let program = string_from_chars(&program_chars);
    Some((ReplaceProcess { program, args, env: envm, cwd }, e + 1))
}

/// Parses a whole response document from the bytes the server sent,
/// decoded as text.  Returns the decision exactly when the text is a
/// well-formed response; `None` is a protocol violation the caller
/// must treat as fatal.
pub fn parse_response(s: &str) -> (r: Option<Response>)
    ensures
        r is None ==> sp_parse_response(s@) is None,
        r is Some ==> sp_parse_response(s@) == Some(response_view(r->0)),
{
    let cs = chars_of(s);
    let p = skip_ws(&cs, 0);
    if !(p < cs.len() && cs[p] == '{') {
        return None;
    }
    let t = skip_ws(&cs, p + 1);
    let parsed = parse_string(&cs, t);
    if parsed.is_none() {
        return None;
    }
    let (k, np) = parsed.unwrap();
    proof {
        lemma_string_advances(s@, t as int);
    }
    let key_status = chars_of("exit_status");
    let key_replace = chars_of("replace_process");
    if eq_chars(&k, &key_status) {
        let q = skip_ws(&cs, np);
        if !(q < cs.len() && cs[q] == ':') {
            return None;
        }
        let t2 = skip_ws(&cs, q + 1);
        let parsed_int = parse_int(&cs, t2);
        if parsed_int.is_none() {
            return None;
        }
        let (v, n1) = parsed_int.unwrap();
        proof {
            lemma_int_advances(s@, t2 as int);
        }
        match parse_comma_key(&cs, n1, &key_replace) {
            Some(ck) => {
                let rp = parse_replace_value(&cs, ck);
                if rp.is_none() {
                    return None;
                }
                let (rpv, n2) = rp.unwrap();
                finish_response(&cs, n2, Some(v), Some(rpv))
            },
            None => finish_response(&cs, n1, Some(v), None),
        }
    } else if eq_chars(&k, &key_replace) {
        let q = skip_ws(&cs, np);
        if !(q < cs.len() && cs[q] == ':') {
            return None;
        }
        let t2 = skip_ws(&cs, q + 1);
        let rp = parse_replace_value(&cs, t2);
        if rp.is_none() {
            return None;
        }
        let (rpv, n2) = rp.unwrap();
        match parse_comma_key(&cs, n2, &key_status) {
            Some(ck) => {
                let parsed_int = parse_int(&cs, ck);
                if parsed_int.is_none() {
                    return None;
                }
                let (v, n3) = parsed_int.unwrap();
                proof {
                    lemma_int_advances(s@, ck as int);
                }
                finish_response(&cs, n3, Some(v), Some(rpv))
            },
            None => finish_response(&cs, n2, None, Some(rpv)),
        }
    } else {
        return None;
    }
}

/// Executable form of [`sp_resp_replace_value`].
fn parse_replace_value(s: &Vec<char>, pos: usize) -> (r: Option<(Option<ReplaceProcess>, usize)>)
    ensures
        r is None ==> sp_resp_replace_value(s@, pos as int) is None,
        r is Some ==> sp_resp_replace_value(s@, pos as int) == Some(
            (
                match (r->0).0 {
                    Some(rp) => Some(replace_view(rp)),
                    None => None,
                },
                ((r->0).1) as int,
            ),
        ) && (r->0).1 <= s@.len(),
{
    if null_at(s, pos) {
        let n = s.len();
        proof {
            assert(pos + 4 <= n);
        }
        Some((None, pos + 4))
    } else {
        match parse_replace(s, pos) {
            None => None,
            Some((rp, np)) => Some((Some(rp), np)),
        }
    }
}

/// Executable form of [`sp_resp_end`].
fn finish_response(s: &Vec<char>, pos: usize, status: Option<i64>, rp: Option<
    Option<ReplaceProcess>,
>) -> (r: Option<Response>)
    requires
        pos <= s@.len(),
    ensures
        ({
            let spec_status: Option<int> = match status {
                Some(v) => Some(v as int),
                None => None,
            };
            let spec_rp: Option<Option<ReplaceV>> = match rp {
                Some(Some(x)) => Some(Some(replace_view(x))),
                Some(None) => Some(None),
                None => None,
            };
            &&& (r is None ==> sp_resp_end(s@, pos as int, spec_status, spec_rp) is None)
            &&& (r is Some ==> sp_resp_end(s@, pos as int, spec_status, spec_rp) == Some(
                response_view(r->0),
            ))
        }),
{
    let e = skip_ws(s, pos);
    if !(e < s.len() && s[e] == '}') {
        return None;
    }
    let after = skip_ws(s, e + 1);
    if after != s.len() {
        return None;
    }
    match rp {
        Some(Some(x)) => Some(Response::Replace(x)),
        _ => match status {
            Some(v) => {
                if -0x8000_0000i64 <= v && v <= 0x7FFF_FFFFi64 {
                    Some(Response::Exit(v as i32))
                } else {
                    None
                }
            },
            None => None,
        },
    }
}

/// The command that launches a fresh server: program, arguments,
/// environment and working directory.
pub struct StartCmd {
    pub env: Vec<(String, String)>,
    pub cwd: String,
    pub program: String,
    pub args: Vec<String>,
}

/// Parses a launch-command document: an object holding exactly the
/// members `env`, `cwd`, `program` and `args`, in that order, all
/// required, with whitespace tolerated around every token.
pub open spec fn sp_parse_start_cmd(s: Seq<char>) -> Option<
    (Seq<(Seq<char>, Seq<char>)>, Seq<char>, Seq<char>, Seq<Seq<char>>),
> {
    let p = sp_ws(s, 0);
    if !(0 <= p < s.len() && s[p] == '{') {
        None
    } else {
        let t = sp_ws(s, p + 1);
        match sp_string(s, t) {
            None => None,
            Some((k, np)) => {
                if k != "env"@ {
                    None
                } else {
                    let q = sp_ws(s, np);
                    if !(0 <= q < s.len() && s[q] == ':') {
                        None
                    } else {
                        match sp_str_map(s, sp_ws(s, q + 1)) {
                            None => None,
                            Some((envm, n1)) => {
                                match sp_comma_key(s, n1, "cwd"@) {
                                    None => None,
                                    Some(c1) => match sp_string(s, c1) {
                                        None => None,
                                        Some((cwd, n2)) => {
                                            match sp_comma_key(s, n2, "program"@) {
                                                None => None,
                                                Some(c2) => match sp_string(s, c2) {
                                                    None => None,
                                                    Some((program, n3)) => {
                                                        match sp_comma_key(s, n3, "args"@) {
                                                            None => None,
                                                            Some(c3) => match sp_str_arr(s, c3) {
                                                                None => None,
                                                                Some((args, n4)) => {
                                                                    let e = sp_ws(s, n4);
                                                                    if 0 <= e < s.len() && s[e]
                                                                        == '}' && sp_ws(s, e + 1)
                                                                        == s.len() {
                                                                        Some(
                                                                            (envm, cwd, program, args),
                                                                        )
                                                                    } else {
                                                                        None
                                                                    }
                                                                },
                                                            },
                                                        }
                                                    },
                                                },
                                            }
                                        },
                                    },
                                }
                            },
                        }
                    }
                }
            },
        }
    }
}

/// Parses the launch-command document.  The returned environment keys
/// are unique.
pub fn parse_start_cmd(s: &str) -> (r: Option<StartCmd>)
    ensures
        r is None ==> sp_parse_start_cmd(s@) is None,
        r is Some ==> sp_parse_start_cmd(s@) == Some(
            (
                pair_views_of((r->0).env@),
                (r->0).cwd@,
                (r->0).program@,
                views_of((r->0).args@),
            ),
        ),
        r is Some ==> unique_keys(pair_views_of((r->0).env@)),
{
    let cs = chars_of(s);
    let p = skip_ws(&cs, 0);
    if !(p < cs.len() && cs[p] == '{') {
        return None;
    }
    let t = skip_ws(&cs, p + 1);
    let parsed = parse_string(&cs, t);
    if parsed.is_none() {
        return None;
    }
    let (k, np) = parsed.unwrap();
    let key_env = chars_of("env");
    if !eq_chars(&k, &key_env) {
        return None;
    }
    proof {
        lemma_string_advances(s@, t as int);
    }
    let q = skip_ws(&cs, np);
    if !(q < cs.len() && cs[q] == ':') {
        return None;
    }
    let t2 = skip_ws(&cs, q + 1);
    let parsed_env = parse_str_map(&cs, t2);
    if parsed_env.is_none() {
        return None;
    }
    let (envm, n1) = parsed_env.unwrap();
    proof {
        lemma_map_advances(s@, t2 as int);
    }
    let key_cwd = chars_of("cwd");
    let c1 = match parse_comma_key(&cs, n1, &key_cwd) {
        None => {
            return None;
        },
        Some(x) => x,
    };
    let parsed_cwd = parse_string(&cs, c1);
    if parsed_cwd.is_none() {
        return None;
    }
    let (cwd, n2) = parsed_cwd.unwrap();
    proof {
        lemma_string_advances(s@, c1 as int);
    }
    let key_program = chars_of("program");
    let c2 = match parse_comma_key(&cs, n2, &key_program) {
        None => {
            return None;
        },
        Some(x) => x,
    };
    let parsed_program = parse_string(&cs, c2);
    if parsed_program.is_none() {
        return None;
    }
    let (program, n3) = parsed_program.unwrap();
    proof {
        lemma_string_advances(s@, c2 as int);
    }
    let key_args = chars_of("args");
    let c3 = match parse_comma_key(&cs, n3, &key_args) {
        None => {
            return None;
        },
        Some(x) => x,
    };
    let parsed_args = parse_str_arr(&cs, c3);
    if parsed_args.is_none() {
        return None;
    }
    let (args, n4) = parsed_args.unwrap();
    proof {
        lemma_arr_advances(s@, c3 as int);
    }
    let e = skip_ws(&cs, n4);
    if !(e < cs.len() && cs[e] == '}') {
        return None;
    }
    let after = skip_ws(&cs, e + 1);
    if after != cs.len() {
        return None;
    }
    Some(
        StartCmd {
            env: envm,
            cwd: string_from_chars(&cwd),
            program: string_from_chars(&program),
            args,
        },
    )
}

} // verus!
