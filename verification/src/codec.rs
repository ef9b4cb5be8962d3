use vstd::prelude::*;
use crate::model::{AppConfig, AuthStatus};
use crate::text::{
    canon_u16_at, dec_digits, is_digit, lemma_canon_u16_unique, lemma_concat_pieces,
    lemma_dec_digits_form, lit_at, parse_u16, scan_lit, u16_to_dec,
};

verus! {

/// The characters of a boolean in the persisted documents.
pub open spec fn bool_chars(b: bool) -> Seq<char> {
    if b {
        "true"@
    } else {
        "false"@
    }
}

/// One boolean as a string slice.
pub fn bool_str(b: bool) -> (r: &'static str)
    ensures
        r@ == bool_chars(b),
{
    if b {
        "true"
    } else {
        "false"
    }
}

/// At most one boolean literal can stand at a given position.
pub proof fn lemma_bool_lit_unique(s: Seq<char>, i: int, b1: bool, b2: bool)
    requires
        lit_at(s, i, bool_chars(b1)),
        lit_at(s, i, bool_chars(b2)),
        0 <= i,
    ensures
        b1 == b2,
{
    reveal_strlit("true");
    reveal_strlit("false");
    if b1 != b2 {
        assert(s.subrange(i, i + bool_chars(b1).len())[0] == s[i]);
        assert(s.subrange(i, i + bool_chars(b2).len())[0] == s[i]);
        assert(bool_chars(true)[0] == 't');
        assert(bool_chars(false)[0] == 'f');
        assert(false);
    }
}

/// Scans a boolean literal at position `i`.
fn scan_bool(s: &str, i: usize) -> (r: Option<(bool, usize)>)
    requires
        i <= s@.len(),
    ensures
        match r {
            Some(bj) => bj.1 == i + bool_chars(bj.0).len() && lit_at(s@, i as int, bool_chars(bj.0)),
            None => forall|b: bool| !lit_at(s@, i as int, bool_chars(b)),
        },
{
    if let Some(j) = scan_lit(s, i, "true") {
        Some((true, j))
    } else if let Some(j) = scan_lit(s, i, "false") {
        Some((false, j))
    } else {
        proof {
            assert forall|b: bool| !lit_at(s@, i as int, bool_chars(b)) by {
                if b {
                    assert(bool_chars(b) == "true"@);
                } else {
                    assert(bool_chars(b) == "false"@);
                }
            }
        }
        None
    }
}

/// The persisted configuration document for a configuration value: a flat
/// object holding the port and the two autostart flags.
#[verifier::opaque]
pub open spec fn spec_config_json(c: AppConfig) -> Seq<char> {
    "{\"port\":"@ + dec_digits(c.port as nat) + ",\"autoStart\":"@ + bool_chars(c.auto_start)
        + ",\"launchAtLogin\":"@ + bool_chars(c.launch_at_login) + "}"@
}

/// Writes the configuration document.
pub fn config_to_json(c: &AppConfig) -> (r: String)
    ensures
        r@ == spec_config_json(*c),
{
    proof {
        reveal(spec_config_json);
    }
    let mut s = String::from_str("{\"port\":");
    let d = u16_to_dec(c.port);
    s.append(d.as_str());
    s.append(",\"autoStart\":");
    s.append(bool_str(c.auto_start));
    s.append(",\"launchAtLogin\":");
    s.append(bool_str(c.launch_at_login));
    s.append("}");
    s
}

/// Where each piece of the configuration document stands.
proof fn lemma_config_shape(s: Seq<char>, c: AppConfig)
    requires
        s == spec_config_json(c),
    ensures
        lit_at(s, 0, "{\"port\":"@),
        canon_u16_at(
            s,
            "{\"port\":"@.len() as int,
            c.port,
            ("{\"port\":"@.len() + dec_digits(c.port as nat).len()) as int,
        ),
        lit_at(
            s,
            ("{\"port\":"@.len() + dec_digits(c.port as nat).len()) as int,
            ",\"autoStart\":"@,
        ),
        lit_at(
            s,
            ("{\"port\":"@.len() + dec_digits(c.port as nat).len() + ",\"autoStart\":"@.len()) as int,
            bool_chars(c.auto_start),
        ),
        lit_at(
            s,
            ("{\"port\":"@.len() + dec_digits(c.port as nat).len() + ",\"autoStart\":"@.len()
                + bool_chars(c.auto_start).len()) as int,
            ",\"launchAtLogin\":"@,
        ),
        lit_at(
            s,
            ("{\"port\":"@.len() + dec_digits(c.port as nat).len() + ",\"autoStart\":"@.len()
                + bool_chars(c.auto_start).len() + ",\"launchAtLogin\":"@.len()) as int,
            bool_chars(c.launch_at_login),
        ),
        lit_at(
            s,
            ("{\"port\":"@.len() + dec_digits(c.port as nat).len() + ",\"autoStart\":"@.len()
                + bool_chars(c.auto_start).len() + ",\"launchAtLogin\":"@.len() + bool_chars(
                c.launch_at_login,
            ).len()) as int,
            "}"@,
        ),
        s.len() == "{\"port\":"@.len() + dec_digits(c.port as nat).len() + ",\"autoStart\":"@.len()
            + bool_chars(c.auto_start).len() + ",\"launchAtLogin\":"@.len() + bool_chars(
            c.launch_at_login,
        ).len() + "}"@.len(),
{
    reveal(spec_config_json);
    lemma_dec_digits_form(c.port as nat);
    let l1 = "{\"port\":"@;
    let dd = dec_digits(c.port as nat);
    let l2 = ",\"autoStart\":"@;
    let b1 = bool_chars(c.auto_start);
    let l3 = ",\"launchAtLogin\":"@;
    let b2 = bool_chars(c.launch_at_login);
    let l4 = "}"@;
    let p1 = l1.len() as int;
    let p2 = p1 + dd.len();
    let p3 = p2 + l2.len();
    let p4 = p3 + b1.len();
    let p5 = p4 + l3.len();
    let p6 = p5 + b2.len();
    let p7 = p6 + l4.len();
    assert(s.len() == p7);
    assert(s.subrange(0, p1) =~= l1);
    assert(s.subrange(p1, p2) =~= dd);
    assert(s.subrange(p2, p3) =~= l2);
    assert(s.subrange(p3, p4) =~= b1);
    assert(s.subrange(p4, p5) =~= l3);
    assert(s.subrange(p5, p6) =~= b2);
    assert(s.subrange(p6, p7) =~= l4);
    reveal_strlit(",\"autoStart\":");
    assert(s[p2] == l2[0]);
    assert(!is_digit(s[p2]));
}

/// Scans the opening label and the port of the configuration document.
fn cfg_scan_port(s: &str) -> (r: Option<(u16, usize)>)
    ensures
        match r {
            Some(pj) => lit_at(s@, 0, "{\"port\":"@) && canon_u16_at(
                s@,
                "{\"port\":"@.len() as int,
                pj.0,
                pj.1 as int,
            ) && pj.1 <= s@.len(),
            None => forall|c: AppConfig| s@ != spec_config_json(c),
        },
{
    let j1 = match scan_lit(s, 0, "{\"port\":") {
        Some(j) => j,
        None => {
            proof {
                assert forall|c: AppConfig| s@ != spec_config_json(c) by {
                    if s@ == spec_config_json(c) {
                        lemma_config_shape(s@, c);
                    }
                }
            }
            return None;
        },
    };
    match parse_u16(s, j1) {
        Some(nj) => Some(nj),
        None => {
            proof {
                assert forall|c: AppConfig| s@ != spec_config_json(c) by {
                    if s@ == spec_config_json(c) {
                        lemma_config_shape(s@, c);
                    }
                }
            }
            None
        },
    }
}

/// Scans the two flags and the closing brace after the port, and puts the
/// whole document back together.
#[verifier::rlimit(100)]
fn cfg_scan_flags(s: &str, port: u16, j2: usize) -> (r: Option<AppConfig>)
    requires
        lit_at(s@, 0, "{\"port\":"@),
        canon_u16_at(s@, "{\"port\":"@.len() as int, port, j2 as int),
        j2 <= s@.len(),
    ensures
        match r {
            Some(c) => s@ == spec_config_json(c) && c.port == port,
            None => forall|c: AppConfig| s@ != spec_config_json(c),
        },
{
    let ghost j1 = "{\"port\":"@.len() as int;
    let j3 = match scan_lit(s, j2, ",\"autoStart\":") {
        Some(j) => j,
        None => {
            proof {
                assert forall|c: AppConfig| s@ != spec_config_json(c) by {
                    if s@ == spec_config_json(c) {
                        lemma_config_shape(s@, c);
                        lemma_canon_u16_unique(
                            s@,
                            j1,
                            port,
                            j2 as int,
                            c.port,
                            j1 + dec_digits(c.port as nat).len(),
                        );
                    }
                }
            }
            return None;
        },
    };
    let (auto_start, j4) = match scan_bool(s, j3) {
        Some(bj) => bj,
        None => {
            proof {
                assert forall|c: AppConfig| s@ != spec_config_json(c) by {
                    if s@ == spec_config_json(c) {
                        lemma_config_shape(s@, c);
                        lemma_canon_u16_unique(
                            s@,
                            j1,
                            port,
                            j2 as int,
                            c.port,
                            j1 + dec_digits(c.port as nat).len(),
                        );
                    }
                }
            }
            return None;
        },
    };
    let j5 = match scan_lit(s, j4, ",\"launchAtLogin\":") {
        Some(j) => j,
        None => {
            proof {
                assert forall|c: AppConfig| s@ != spec_config_json(c) by {
                    if s@ == spec_config_json(c) {
                        lemma_config_shape(s@, c);
                        lemma_canon_u16_unique(
                            s@,
                            j1,
                            port,
                            j2 as int,
                            c.port,
                            j1 + dec_digits(c.port as nat).len(),
                        );
                        lemma_bool_lit_unique(s@, j3 as int, auto_start, c.auto_start);
                    }
                }
            }
            return None;
        },
    };
    let (launch_at_login, j6) = match scan_bool(s, j5) {
        Some(bj) => bj,
        None => {
            proof {
                assert forall|c: AppConfig| s@ != spec_config_json(c) by {
                    if s@ == spec_config_json(c) {
                        lemma_config_shape(s@, c);
                        lemma_canon_u16_unique(
                            s@,
                            j1,
                            port,
                            j2 as int,
                            c.port,
                            j1 + dec_digits(c.port as nat).len(),
                        );
                        lemma_bool_lit_unique(s@, j3 as int, auto_start, c.auto_start);
                    }
                }
            }
            return None;
        },
    };
    let j7 = match scan_lit(s, j6, "}") {
        Some(j) => j,
        None => {
            proof {
                assert forall|c: AppConfig| s@ != spec_config_json(c) by {
                    if s@ == spec_config_json(c) {
                        lemma_config_shape(s@, c);
                        lemma_canon_u16_unique(
                            s@,
                            j1,
                            port,
                            j2 as int,
                            c.port,
                            j1 + dec_digits(c.port as nat).len(),
                        );
                        lemma_bool_lit_unique(s@, j3 as int, auto_start, c.auto_start);
                        lemma_bool_lit_unique(s@, j5 as int, launch_at_login, c.launch_at_login);
                    }
                }
            }
            return None;
        },
    };
    let end = s.unicode_len();
    if j7 != end {
        proof {
            assert forall|c: AppConfig| s@ != spec_config_json(c) by {
                if s@ == spec_config_json(c) {
                    lemma_config_shape(s@, c);
                    lemma_canon_u16_unique(
                        s@,
                        j1,
                        port,
                        j2 as int,
                        c.port,
                        j1 + dec_digits(c.port as nat).len(),
                    );
                    lemma_bool_lit_unique(s@, j3 as int, auto_start, c.auto_start);
                    lemma_bool_lit_unique(s@, j5 as int, launch_at_login, c.launch_at_login);
                }
            }
        }
        return None;
    }
    let c = AppConfig { port, auto_start, launch_at_login };
    proof {
        assert(s@.subrange(0, j2 as int) =~= s@.subrange(0, j1) + s@.subrange(j1, j2 as int));
        assert(s@.subrange(0, j3 as int) =~= s@.subrange(0, j2 as int) + s@.subrange(
            j2 as int,
            j3 as int,
        ));
        assert(s@.subrange(0, j4 as int) =~= s@.subrange(0, j3 as int) + s@.subrange(
            j3 as int,
            j4 as int,
        ));
        assert(s@.subrange(0, j5 as int) =~= s@.subrange(0, j4 as int) + s@.subrange(
            j4 as int,
            j5 as int,
        ));
        assert(s@.subrange(0, j6 as int) =~= s@.subrange(0, j5 as int) + s@.subrange(
            j5 as int,
            j6 as int,
        ));
        assert(s@.subrange(0, j7 as int) =~= s@.subrange(0, j6 as int) + s@.subrange(
            j6 as int,
            j7 as int,
        ));
        assert(s@ =~= s@.subrange(0, j7 as int));
        reveal(spec_config_json);
        assert(s@ == spec_config_json(c));
    }
    Some(c)
}

/// Reads the configuration document back. The reading is exact: a string is
/// accepted if and only if it is the document written for some
/// configuration value, and then that value is returned — so a saved
/// configuration always loads back equal, and nothing else is accepted.
pub fn config_from_json(s: &str) -> (r: Option<AppConfig>)
    ensures
        match r {
            Some(c) => s@ == spec_config_json(c),
            None => forall|c: AppConfig| s@ != spec_config_json(c),
        },
{
    match cfg_scan_port(s) {
        Some(pj) => cfg_scan_flags(s, pj.0, pj.1),
        None => None,
    }
}

/// Two distinct configuration values never write the same document, so a
/// saved configuration loads back exactly — including the boundary ports 0
/// and 65535 and every combination of the flags.
pub proof fn lemma_config_json_injective(c1: AppConfig, c2: AppConfig)
    requires
        spec_config_json(c1) == spec_config_json(c2),
    ensures
        c1 == c2,
{
    let s = spec_config_json(c1);
    lemma_config_shape(s, c1);
    lemma_config_shape(s, c2);
    lemma_canon_u16_unique(
        s,
        "{\"port\":"@.len() as int,
        c1.port,
        ("{\"port\":"@.len() + dec_digits(c1.port as nat).len()) as int,
        c2.port,
        ("{\"port\":"@.len() + dec_digits(c2.port as nat).len()) as int,
    );
    lemma_bool_lit_unique(
        s,
        ("{\"port\":"@.len() + dec_digits(c1.port as nat).len() + ",\"autoStart\":"@.len()) as int,
        c1.auto_start,
        c2.auto_start,
    );
    lemma_bool_lit_unique(
        s,
        ("{\"port\":"@.len() + dec_digits(c1.port as nat).len() + ",\"autoStart\":"@.len()
            + bool_chars(c1.auto_start).len() + ",\"launchAtLogin\":"@.len()) as int,
        c1.launch_at_login,
        c2.launch_at_login,
    );
}

/// The persisted authentication document for a record: a flat object
/// holding one boolean per provider.
#[verifier::opaque]
pub open spec fn spec_auth_json(a: AuthStatus) -> Seq<char> {
    "{\"acme\":"@ + bool_chars(a.acme) + ",\"openai\":"@ + bool_chars(a.openai)
        + ",\"gemini\":"@ + bool_chars(a.gemini) + ",\"qwen\":"@ + bool_chars(a.qwen) + "}"@
}

/// Writes the authentication document.
pub fn auth_to_json(a: &AuthStatus) -> (r: String)
    ensures
        r@ == spec_auth_json(*a),
{
    proof {
        reveal(spec_auth_json);
    }
    let mut s = String::from_str("{\"acme\":");
    s.append(bool_str(a.acme));
    s.append(",\"openai\":");
    s.append(bool_str(a.openai));
    s.append(",\"gemini\":");
    s.append(bool_str(a.gemini));
    s.append(",\"qwen\":");
    s.append(bool_str(a.qwen));
    s.append("}");
    s
}

/// Where each piece of the authentication document stands.
proof fn lemma_auth_shape(s: Seq<char>, a: AuthStatus)
    requires
        s == spec_auth_json(a),
    ensures
        lit_at(s, 0, "{\"acme\":"@),
        lit_at(s, "{\"acme\":"@.len() as int, bool_chars(a.acme)),
        lit_at(
            s,
            ("{\"acme\":"@.len() + bool_chars(a.acme).len()) as int,
            ",\"openai\":"@,
        ),
        lit_at(
            s,
            ("{\"acme\":"@.len() + bool_chars(a.acme).len() + ",\"openai\":"@.len()) as int,
            bool_chars(a.openai),
        ),
        lit_at(
            s,
            ("{\"acme\":"@.len() + bool_chars(a.acme).len() + ",\"openai\":"@.len()
                + bool_chars(a.openai).len()) as int,
            ",\"gemini\":"@,
        ),
        lit_at(
            s,
            ("{\"acme\":"@.len() + bool_chars(a.acme).len() + ",\"openai\":"@.len()
                + bool_chars(a.openai).len() + ",\"gemini\":"@.len()) as int,
            bool_chars(a.gemini),
        ),
        lit_at(
            s,
            ("{\"acme\":"@.len() + bool_chars(a.acme).len() + ",\"openai\":"@.len()
                + bool_chars(a.openai).len() + ",\"gemini\":"@.len() + bool_chars(
                a.gemini,
            ).len()) as int,
            ",\"qwen\":"@,
        ),
        lit_at(
            s,
            ("{\"acme\":"@.len() + bool_chars(a.acme).len() + ",\"openai\":"@.len()
                + bool_chars(a.openai).len() + ",\"gemini\":"@.len() + bool_chars(a.gemini).len()
                + ",\"qwen\":"@.len()) as int,
            bool_chars(a.qwen),
        ),
        lit_at(
            s,
            ("{\"acme\":"@.len() + bool_chars(a.acme).len() + ",\"openai\":"@.len()
                + bool_chars(a.openai).len() + ",\"gemini\":"@.len() + bool_chars(a.gemini).len()
                + ",\"qwen\":"@.len() + bool_chars(a.qwen).len()) as int,
            "}"@,
        ),
        s.len() == "{\"acme\":"@.len() + bool_chars(a.acme).len() + ",\"openai\":"@.len()
            + bool_chars(a.openai).len() + ",\"gemini\":"@.len() + bool_chars(a.gemini).len()
            + ",\"qwen\":"@.len() + bool_chars(a.qwen).len() + "}"@.len(),
{
    reveal(spec_auth_json);
    let l1 = "{\"acme\":"@;
    let b1 = bool_chars(a.acme);
    let l2 = ",\"openai\":"@;
    let b2 = bool_chars(a.openai);
    let l3 = ",\"gemini\":"@;
    let b3 = bool_chars(a.gemini);
    let l4 = ",\"qwen\":"@;
    let b4 = bool_chars(a.qwen);
    let l5 = "}"@;
    let c1 = l1;
    let c2 = c1 + b1;
    let c3 = c2 + l2;
    let c4 = c3 + b2;
    let c5 = c4 + l3;
    let c6 = c5 + b3;
    let c7 = c6 + l4;
    let c8 = c7 + b4;
    let s9 = c8 + l5;
    lemma_concat_pieces(c8, l5, s);
    lemma_concat_pieces(c7, b4, c8);
    lemma_concat_pieces(c6, l4, c7);
    lemma_concat_pieces(c5, b3, c6);
    lemma_concat_pieces(c4, l3, c5);
    lemma_concat_pieces(c3, b2, c4);
    lemma_concat_pieces(c2, l2, c3);
    lemma_concat_pieces(c1, b1, c2);
    let p1 = l1.len() as int;
    let p2 = p1 + b1.len();
    let p3 = p2 + l2.len();
    let p4 = p3 + b2.len();
    let p5 = p4 + l3.len();
    let p6 = p5 + b3.len();
    let p7 = p6 + l4.len();
    let p8 = p7 + b4.len();
    assert(s.subrange(p8, s.len() as int) == l5);
    assert(s.subrange(p7, p8) == c8.subrange(p7, p8));
    assert(c8.subrange(p7, p8) == b4);
    assert(s.subrange(p6, p7) == c8.subrange(p6, p7) && c8.subrange(p6, p7) == c7.subrange(p6, p7)
        && c7.subrange(p6, p7) == l4);
    assert(s.subrange(p5, p6) == c8.subrange(p5, p6) && c8.subrange(p5, p6) == c7.subrange(p5, p6)
        && c7.subrange(p5, p6) == c6.subrange(p5, p6) && c6.subrange(p5, p6) == b3);
    assert(s.subrange(p4, p5) == c8.subrange(p4, p5) && c8.subrange(p4, p5) == c7.subrange(p4, p5)
        && c7.subrange(p4, p5) == c6.subrange(p4, p5) && c6.subrange(p4, p5) == c5.subrange(p4, p5)
        && c5.subrange(p4, p5) == l3);
    assert(s.subrange(p3, p4) == c8.subrange(p3, p4) && c8.subrange(p3, p4) == c7.subrange(p3, p4)
        && c7.subrange(p3, p4) == c6.subrange(p3, p4) && c6.subrange(p3, p4) == c5.subrange(p3, p4)
        && c5.subrange(p3, p4) == c4.subrange(p3, p4) && c4.subrange(p3, p4) == b2);
    assert(s.subrange(p2, p3) == c8.subrange(p2, p3) && c8.subrange(p2, p3) == c7.subrange(p2, p3)
        && c7.subrange(p2, p3) == c6.subrange(p2, p3) && c6.subrange(p2, p3) == c5.subrange(p2, p3)
        && c5.subrange(p2, p3) == c4.subrange(p2, p3) && c4.subrange(p2, p3) == c3.subrange(p2, p3)
        && c3.subrange(p2, p3) == l2);
    assert(s.subrange(p1, p2) == c8.subrange(p1, p2) && c8.subrange(p1, p2) == c7.subrange(p1, p2)
        && c7.subrange(p1, p2) == c6.subrange(p1, p2) && c6.subrange(p1, p2) == c5.subrange(p1, p2)
        && c5.subrange(p1, p2) == c4.subrange(p1, p2) && c4.subrange(p1, p2) == c3.subrange(p1, p2)
        && c3.subrange(p1, p2) == c2.subrange(p1, p2) && c2.subrange(p1, p2) == b1);
    assert(s.subrange(0, p1) == c8.subrange(0, p1) && c8.subrange(0, p1) == c7.subrange(0, p1)
        && c7.subrange(0, p1) == c6.subrange(0, p1) && c6.subrange(0, p1) == c5.subrange(0, p1)
        && c5.subrange(0, p1) == c4.subrange(0, p1) && c4.subrange(0, p1) == c3.subrange(0, p1)
        && c3.subrange(0, p1) == c2.subrange(0, p1) && c2.subrange(0, p1) == c1.subrange(0, p1));
    assert(c1.subrange(0, p1) =~= l1);
}

/// Scans the first half of the authentication document.
#[verifier::rlimit(100)]
fn auth_scan_front(s: &str) -> (r: Option<(bool, bool, usize)>)
    ensures
        match r {
            Some(v) => lit_at(s@, 0, "{\"acme\":"@) && lit_at(
                s@,
                "{\"acme\":"@.len() as int,
                bool_chars(v.0),
            ) && lit_at(
                s@,
                ("{\"acme\":"@.len() + bool_chars(v.0).len()) as int,
                ",\"openai\":"@,
            ) && lit_at(
                s@,
                ("{\"acme\":"@.len() + bool_chars(v.0).len() + ",\"openai\":"@.len()) as int,
                bool_chars(v.1),
            ) && v.2 == "{\"acme\":"@.len() + bool_chars(v.0).len() + ",\"openai\":"@.len()
                + bool_chars(v.1).len() && v.2 <= s@.len(),
            None => forall|a: AuthStatus| s@ != spec_auth_json(a),
        },
{
    let j1 = match scan_lit(s, 0, "{\"acme\":") {
        Some(j) => j,
        None => {
            proof {
                assert forall|a: AuthStatus| s@ != spec_auth_json(a) by {
                    if s@ == spec_auth_json(a) {
                        lemma_auth_shape(s@, a);
                    }
                }
            }
            return None;
        },
    };
    let (acme, j2) = match scan_bool(s, j1) {
        Some(bj) => bj,
        None => {
            proof {
                assert forall|a: AuthStatus| s@ != spec_auth_json(a) by {
                    if s@ == spec_auth_json(a) {
                        lemma_auth_shape(s@, a);
                    }
                }
            }
            return None;
        },
    };
    let j3 = match scan_lit(s, j2, ",\"openai\":") {
        Some(j) => j,
        None => {
            proof {
                assert forall|a: AuthStatus| s@ != spec_auth_json(a) by {
                    if s@ == spec_auth_json(a) {
                        lemma_auth_shape(s@, a);
                        lemma_bool_lit_unique(s@, j1 as int, acme, a.acme);
                    }
                }
            }
            return None;
        },
    };
    let (openai, j4) = match scan_bool(s, j3) {
        Some(bj) => bj,
        None => {
            proof {
                assert forall|a: AuthStatus| s@ != spec_auth_json(a) by {
                    if s@ == spec_auth_json(a) {
                        lemma_auth_shape(s@, a);
                        lemma_bool_lit_unique(s@, j1 as int, acme, a.acme);
                    }
                }
            }
            return None;
        },
    };
    Some((acme, openai, j4))
}

/// Pieces standing at consecutive positions make up the whole document.
#[verifier::rlimit(100)]
proof fn lemma_auth_assemble(s: Seq<char>, a: AuthStatus, j9: int)
    requires
        lit_at(s, 0, "{\"acme\":"@),
        lit_at(s, "{\"acme\":"@.len() as int, bool_chars(a.acme)),
        lit_at(s, ("{\"acme\":"@.len() + bool_chars(a.acme).len()) as int, ",\"openai\":"@),
        lit_at(
            s,
            ("{\"acme\":"@.len() + bool_chars(a.acme).len() + ",\"openai\":"@.len()) as int,
            bool_chars(a.openai),
        ),
        lit_at(
            s,
            ("{\"acme\":"@.len() + bool_chars(a.acme).len() + ",\"openai\":"@.len()
                + bool_chars(a.openai).len()) as int,
            ",\"gemini\":"@,
        ),
        lit_at(
            s,
            ("{\"acme\":"@.len() + bool_chars(a.acme).len() + ",\"openai\":"@.len()
                + bool_chars(a.openai).len() + ",\"gemini\":"@.len()) as int,
            bool_chars(a.gemini),
        ),
        lit_at(
            s,
            ("{\"acme\":"@.len() + bool_chars(a.acme).len() + ",\"openai\":"@.len()
                + bool_chars(a.openai).len() + ",\"gemini\":"@.len() + bool_chars(
                a.gemini,
            ).len()) as int,
            ",\"qwen\":"@,
        ),
        lit_at(
            s,
            ("{\"acme\":"@.len() + bool_chars(a.acme).len() + ",\"openai\":"@.len()
                + bool_chars(a.openai).len() + ",\"gemini\":"@.len() + bool_chars(a.gemini).len()
                + ",\"qwen\":"@.len()) as int,
            bool_chars(a.qwen),
        ),
        lit_at(
            s,
            ("{\"acme\":"@.len() + bool_chars(a.acme).len() + ",\"openai\":"@.len()
                + bool_chars(a.openai).len() + ",\"gemini\":"@.len() + bool_chars(a.gemini).len()
                + ",\"qwen\":"@.len() + bool_chars(a.qwen).len()) as int,
            "}"@,
        ),
        j9 == "{\"acme\":"@.len() + bool_chars(a.acme).len() + ",\"openai\":"@.len()
            + bool_chars(a.openai).len() + ",\"gemini\":"@.len() + bool_chars(a.gemini).len()
            + ",\"qwen\":"@.len() + bool_chars(a.qwen).len() + "}"@.len(),
        s.len() == j9,
    ensures
        s == spec_auth_json(a),
{
    let l1 = "{\"acme\":"@;
    let b1 = bool_chars(a.acme);
    let l2 = ",\"openai\":"@;
    let b2 = bool_chars(a.openai);
    let l3 = ",\"gemini\":"@;
    let b3 = bool_chars(a.gemini);
    let l4 = ",\"qwen\":"@;
    let b4 = bool_chars(a.qwen);
    let l5 = "}"@;
    let p1 = l1.len() as int;
    let p2 = p1 + b1.len();
    let p3 = p2 + l2.len();
    let p4 = p3 + b2.len();
    let p5 = p4 + l3.len();
    let p6 = p5 + b3.len();
    let p7 = p6 + l4.len();
    let p8 = p7 + b4.len();
    let p9 = p8 + l5.len();
    assert(s.subrange(0, p2) =~= s.subrange(0, p1) + s.subrange(p1, p2));
    assert(s.subrange(0, p3) =~= s.subrange(0, p2) + s.subrange(p2, p3));
    assert(s.subrange(0, p4) =~= s.subrange(0, p3) + s.subrange(p3, p4));
    assert(s.subrange(0, p5) =~= s.subrange(0, p4) + s.subrange(p4, p5));
    assert(s.subrange(0, p6) =~= s.subrange(0, p5) + s.subrange(p5, p6));
    assert(s.subrange(0, p7) =~= s.subrange(0, p6) + s.subrange(p6, p7));
    assert(s.subrange(0, p8) =~= s.subrange(0, p7) + s.subrange(p7, p8));
    assert(s.subrange(0, p9) =~= s.subrange(0, p8) + s.subrange(p8, p9));
    assert(s =~= s.subrange(0, p9));
    reveal(spec_auth_json);
    assert(s == spec_auth_json(a));
}

/// Scans the gemini flag after the first half of the authentication
/// document.
#[verifier::rlimit(100)]
fn auth_scan_gemini(s: &str, acme: bool, openai: bool, j4: usize) -> (r: Option<(bool, usize)>)
    requires
        lit_at(s@, 0, "{\"acme\":"@),
        lit_at(s@, "{\"acme\":"@.len() as int, bool_chars(acme)),
        lit_at(s@, ("{\"acme\":"@.len() + bool_chars(acme).len()) as int, ",\"openai\":"@),
        lit_at(
            s@,
            ("{\"acme\":"@.len() + bool_chars(acme).len() + ",\"openai\":"@.len()) as int,
            bool_chars(openai),
        ),
        j4 == "{\"acme\":"@.len() + bool_chars(acme).len() + ",\"openai\":"@.len()
            + bool_chars(openai).len(),
        j4 <= s@.len(),
    ensures
        match r {
            Some(v) => lit_at(s@, j4 as int, ",\"gemini\":"@) && lit_at(
                s@,
                (j4 + ",\"gemini\":"@.len()) as int,
                bool_chars(v.0),
            ) && v.1 == j4 + ",\"gemini\":"@.len() + bool_chars(v.0).len() && v.1 <= s@.len(),
            None => forall|a: AuthStatus| s@ != spec_auth_json(a),
        },
{
    let ghost j1 = "{\"acme\":"@.len() as int;
    let ghost j3 = j1 + bool_chars(acme).len() + ",\"openai\":"@.len();
    let j5 = match scan_lit(s, j4, ",\"gemini\":") {
        Some(j) => j,
        None => {
            proof {
                assert forall|a: AuthStatus| s@ != spec_auth_json(a) by {
                    if s@ == spec_auth_json(a) {
                        lemma_auth_shape(s@, a);
                        lemma_bool_lit_unique(s@, j1, acme, a.acme);
                        lemma_bool_lit_unique(s@, j3, openai, a.openai);
                    }
                }
            }
            return None;
        },
    };
    match scan_bool(s, j5) {
        Some(bj) => Some(bj),
        None => {
            proof {
                assert forall|a: AuthStatus| s@ != spec_auth_json(a) by {
                    if s@ == spec_auth_json(a) {
                        lemma_auth_shape(s@, a);
                        lemma_bool_lit_unique(s@, j1, acme, a.acme);
                        lemma_bool_lit_unique(s@, j3, openai, a.openai);
                    }
                }
            }
            None
        },
    }
}

/// Scans the qwen flag and the closing brace, and puts the whole
/// authentication document back together.
#[verifier::rlimit(100)]
fn auth_scan_qwen(s: &str, acme: bool, openai: bool, gemini: bool, j6: usize) -> (r: Option<
    AuthStatus,
>)
    requires
        lit_at(s@, 0, "{\"acme\":"@),
        lit_at(s@, "{\"acme\":"@.len() as int, bool_chars(acme)),
        lit_at(s@, ("{\"acme\":"@.len() + bool_chars(acme).len()) as int, ",\"openai\":"@),
        lit_at(
            s@,
            ("{\"acme\":"@.len() + bool_chars(acme).len() + ",\"openai\":"@.len()) as int,
            bool_chars(openai),
        ),
        lit_at(
            s@,
            ("{\"acme\":"@.len() + bool_chars(acme).len() + ",\"openai\":"@.len()
                + bool_chars(openai).len()) as int,
            ",\"gemini\":"@,
        ),
        lit_at(
            s@,
            ("{\"acme\":"@.len() + bool_chars(acme).len() + ",\"openai\":"@.len()
                + bool_chars(openai).len() + ",\"gemini\":"@.len()) as int,
            bool_chars(gemini),
        ),
        j6 == "{\"acme\":"@.len() + bool_chars(acme).len() + ",\"openai\":"@.len()
            + bool_chars(openai).len() + ",\"gemini\":"@.len() + bool_chars(gemini).len(),
        j6 <= s@.len(),
    ensures
        match r {
            Some(a) => s@ == spec_auth_json(a) && a.acme == acme && a.openai == openai
                && a.gemini == gemini,
            None => forall|a: AuthStatus| s@ != spec_auth_json(a),
        },
{
    let ghost j1 = "{\"acme\":"@.len() as int;
    let ghost j3 = j1 + bool_chars(acme).len() + ",\"openai\":"@.len();
    let ghost j5 = j3 + bool_chars(openai).len() + ",\"gemini\":"@.len();
    let j7 = match scan_lit(s, j6, ",\"qwen\":") {
        Some(j) => j,
        None => {
            proof {
                assert forall|a: AuthStatus| s@ != spec_auth_json(a) by {
                    if s@ == spec_auth_json(a) {
                        lemma_auth_shape(s@, a);
                        lemma_bool_lit_unique(s@, j1, acme, a.acme);
                        lemma_bool_lit_unique(s@, j3, openai, a.openai);
                        lemma_bool_lit_unique(s@, j5, gemini, a.gemini);
                    }
                }
            }
            return None;
        },
    };
    let (qwen, j8) = match scan_bool(s, j7) {
        Some(bj) => bj,
        None => {
            proof {
                assert forall|a: AuthStatus| s@ != spec_auth_json(a) by {
                    if s@ == spec_auth_json(a) {
                        lemma_auth_shape(s@, a);
                        lemma_bool_lit_unique(s@, j1, acme, a.acme);
                        lemma_bool_lit_unique(s@, j3, openai, a.openai);
                        lemma_bool_lit_unique(s@, j5, gemini, a.gemini);
                    }
                }
            }
            return None;
        },
    };
    let j9 = match scan_lit(s, j8, "}") {
        Some(j) => j,
        None => {
            proof {
                assert forall|a: AuthStatus| s@ != spec_auth_json(a) by {
                    if s@ == spec_auth_json(a) {
                        lemma_auth_shape(s@, a);
                        lemma_bool_lit_unique(s@, j1, acme, a.acme);
                        lemma_bool_lit_unique(s@, j3, openai, a.openai);
                        lemma_bool_lit_unique(s@, j5, gemini, a.gemini);
                        lemma_bool_lit_unique(s@, j7 as int, qwen, a.qwen);
                    }
                }
            }
            return None;
        },
    };
    let end = s.unicode_len();
    if j9 != end {
        proof {
            assert forall|a: AuthStatus| s@ != spec_auth_json(a) by {
                if s@ == spec_auth_json(a) {
                    lemma_auth_shape(s@, a);
                    lemma_bool_lit_unique(s@, j1, acme, a.acme);
                    lemma_bool_lit_unique(s@, j3, openai, a.openai);
                    lemma_bool_lit_unique(s@, j5, gemini, a.gemini);
                    lemma_bool_lit_unique(s@, j7 as int, qwen, a.qwen);
                }
            }
        }
        return None;
    }
    let a = AuthStatus { acme, openai, gemini, qwen };
    proof {
        lemma_auth_assemble(s@, a, j9 as int);
    }
    Some(a)
}

/// Reads the authentication document back. The reading is exact: a string
/// is accepted if and only if it is the document written for some record,
/// and then that record is returned.
pub fn auth_from_json(s: &str) -> (r: Option<AuthStatus>)
    ensures
        match r {
            Some(a) => s@ == spec_auth_json(a),
            None => forall|a: AuthStatus| s@ != spec_auth_json(a),
        },
{
    let (acme, openai, j4) = match auth_scan_front(s) {
        Some(v) => v,
        None => {
            return None;
        },
    };
    match auth_scan_gemini(s, acme, openai, j4) {
        Some(v) => auth_scan_qwen(s, acme, openai, v.0, v.1),
        None => None,
    }
}

/// Two distinct records never write the same authentication document, so a
/// saved record loads back exactly.
pub proof fn lemma_auth_json_injective(a1: AuthStatus, a2: AuthStatus)
    requires
        spec_auth_json(a1) == spec_auth_json(a2),
    ensures
        a1 == a2,
{
    let s = spec_auth_json(a1);
    lemma_auth_shape(s, a1);
    lemma_auth_shape(s, a2);
    lemma_bool_lit_unique(s, "{\"acme\":"@.len() as int, a1.acme, a2.acme);
    lemma_bool_lit_unique(
        s,
        ("{\"acme\":"@.len() + bool_chars(a1.acme).len() + ",\"openai\":"@.len()) as int,
        a1.openai,
        a2.openai,
    );
    lemma_bool_lit_unique(
        s,
        ("{\"acme\":"@.len() + bool_chars(a1.acme).len() + ",\"openai\":"@.len()
            + bool_chars(a1.openai).len() + ",\"gemini\":"@.len()) as int,
        a1.gemini,
        a2.gemini,
    );
    lemma_bool_lit_unique(
        s,
        ("{\"acme\":"@.len() + bool_chars(a1.acme).len() + ",\"openai\":"@.len()
            + bool_chars(a1.openai).len() + ",\"gemini\":"@.len() + bool_chars(a1.gemini).len()
            + ",\"qwen\":"@.len()) as int,
        a1.qwen,
        a2.qwen,
    );
}

} // verus!
