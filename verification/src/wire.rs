use vstd::prelude::*;
use crate::text::{lemma_concat_pieces, lit_at, scan_lit, take_until};

verus! {

/// Whether a sequence contains no double quote.
pub open spec fn quote_free(s: Seq<char>) -> bool {
    forall|k: int| 0 <= k < s.len() ==> s[k] != '"'
}

/// Whether a sequence contains no ampersand.
pub open spec fn amp_free(s: Seq<char>) -> bool {
    forall|k: int| 0 <= k < s.len() ==> s[k] != '&'
}

/// The first position of a character after `i` is unique.
proof fn lemma_first_stop(s: Seq<char>, i: int, stop: char, q1: int, q2: int)
    requires
        i <= q1 < s.len(),
        s[q1] == stop,
        forall|k: int| i <= k < q1 ==> s[k] != stop,
        i <= q2 < s.len(),
        s[q2] == stop,
        forall|k: int| i <= k < q2 ==> s[k] != stop,
    ensures
        q1 == q2,
{
}

/// The management API's answer to an authorization-initiation request: a
/// flat object carrying the authorization URL and the state token of the
/// session it opened.
#[verifier::opaque]
pub open spec fn spec_url_state_json(u: Seq<char>, t: Seq<char>) -> Seq<char> {
    "{\"url\":\""@ + u + "\",\"state\":\""@ + t + "\"}"@
}

/// Where each piece of the answer stands.
proof fn lemma_url_state_shape(s: Seq<char>, u: Seq<char>, t: Seq<char>)
    requires
        s == spec_url_state_json(u, t),
        quote_free(u),
        quote_free(t),
    ensures
        lit_at(s, 0, "{\"url\":\""@),
        s.subrange("{\"url\":\""@.len() as int, ("{\"url\":\""@.len() + u.len()) as int) == u,
        (("{\"url\":\""@.len() + u.len()) as int) < s.len(),
        s[("{\"url\":\""@.len() + u.len()) as int] == '"',
        forall|k: int|
            "{\"url\":\""@.len() <= k < "{\"url\":\""@.len() + u.len() ==> s[k] != '"',
        lit_at(s, ("{\"url\":\""@.len() + u.len()) as int, "\",\"state\":\""@),
        s.subrange(
            ("{\"url\":\""@.len() + u.len() + "\",\"state\":\""@.len()) as int,
            ("{\"url\":\""@.len() + u.len() + "\",\"state\":\""@.len() + t.len()) as int,
        ) == t,
        (("{\"url\":\""@.len() + u.len() + "\",\"state\":\""@.len() + t.len()) as int) < s.len(),
        s[("{\"url\":\""@.len() + u.len() + "\",\"state\":\""@.len() + t.len()) as int] == '"',
        forall|k: int|
            "{\"url\":\""@.len() + u.len() + "\",\"state\":\""@.len() <= k < "{\"url\":\""@.len()
                + u.len() + "\",\"state\":\""@.len() + t.len() ==> s[k] != '"',
        lit_at(
            s,
            ("{\"url\":\""@.len() + u.len() + "\",\"state\":\""@.len() + t.len()) as int,
            "\"}"@,
        ),
        s.len() == "{\"url\":\""@.len() + u.len() + "\",\"state\":\""@.len() + t.len()
            + "\"}"@.len(),
{
    reveal(spec_url_state_json);
    let l1 = "{\"url\":\""@;
    let l2 = "\",\"state\":\""@;
    let l3 = "\"}"@;
    let c1 = l1;
    let c2 = c1 + u;
    let c3 = c2 + l2;
    let c4 = c3 + t;
    let p1 = l1.len() as int;
    let p2 = p1 + u.len();
    let p3 = p2 + l2.len();
    let p4 = p3 + t.len();
    let p5 = p4 + l3.len();
    lemma_concat_pieces(c4, l3, s);
    lemma_concat_pieces(c3, t, c4);
    lemma_concat_pieces(c2, l2, c3);
    lemma_concat_pieces(c1, u, c2);
    assert(s.subrange(p4, p5) == l3);
    assert(s.subrange(p3, p4) == c4.subrange(p3, p4) && c4.subrange(p3, p4) == t);
    assert(s.subrange(p2, p3) == c4.subrange(p2, p3) && c4.subrange(p2, p3) == c3.subrange(p2, p3)
        && c3.subrange(p2, p3) == l2);
    assert(s.subrange(p1, p2) == c4.subrange(p1, p2) && c4.subrange(p1, p2) == c3.subrange(p1, p2)
        && c3.subrange(p1, p2) == c2.subrange(p1, p2) && c2.subrange(p1, p2) == u);
    assert(s.subrange(0, p1) == c4.subrange(0, p1) && c4.subrange(0, p1) == c3.subrange(0, p1)
        && c3.subrange(0, p1) == c2.subrange(0, p1) && c2.subrange(0, p1) == c1.subrange(0, p1));
    assert(c1.subrange(0, p1) =~= l1);
    reveal_strlit("\",\"state\":\"");
    reveal_strlit("\"}");
    assert(s[p2] == s.subrange(p2, p3)[0]);
    assert(s[p4] == s.subrange(p4, p5)[0]);
    assert forall|k: int| p1 <= k < p2 implies s[k] != '"' by {
        assert(s[k] == s.subrange(p1, p2)[k - p1]);
    }
    assert forall|k: int| p3 <= k < p4 implies s[k] != '"' by {
        assert(s[k] == s.subrange(p3, p4)[k - p3]);
    }
}

/// Reads the answer to an authorization-initiation request: exactly the
/// documents above, for quote-free URL and token, are accepted, and the two
/// fields are handed back.
#[verifier::rlimit(100)]
pub fn parse_url_state(s: &str) -> (r: Option<(String, String)>)
    ensures
        match r {
            Some(ut) => quote_free(ut.0@) && quote_free(ut.1@) && s@ == spec_url_state_json(
                ut.0@,
                ut.1@,
            ),
            None => forall|u: Seq<char>, t: Seq<char>|
                quote_free(u) && quote_free(t) ==> s@ != spec_url_state_json(u, t),
        },
{
    let j1 = match scan_lit(s, 0, "{\"url\":\"") {
        Some(j) => j,
        None => {
            proof {
                assert forall|u: Seq<char>, t: Seq<char>|
                    quote_free(u) && quote_free(t) implies s@ != spec_url_state_json(u, t) by {
                    if s@ == spec_url_state_json(u, t) {
                        lemma_url_state_shape(s@, u, t);
                    }
                }
            }
            return None;
        },
    };
    let (url, q1) = match take_until(s, j1, '"') {
        Some(v) => v,
        None => {
            proof {
                assert forall|u: Seq<char>, t: Seq<char>|
                    quote_free(u) && quote_free(t) implies s@ != spec_url_state_json(u, t) by {
                    if s@ == spec_url_state_json(u, t) {
                        lemma_url_state_shape(s@, u, t);
                    }
                }
            }
            return None;
        },
    };
    let j2 = match scan_lit(s, q1, "\",\"state\":\"") {
        Some(j) => j,
        None => {
            proof {
                assert forall|u: Seq<char>, t: Seq<char>|
                    quote_free(u) && quote_free(t) implies s@ != spec_url_state_json(u, t) by {
                    if s@ == spec_url_state_json(u, t) {
                        lemma_url_state_shape(s@, u, t);
                        lemma_first_stop(
                            s@,
                            j1 as int,
                            '"',
                            q1 as int,
                            ("{\"url\":\""@.len() + u.len()) as int,
                        );
                    }
                }
            }
            return None;
        },
    };
    let (token, q2) = match take_until(s, j2, '"') {
        Some(v) => v,
        None => {
            proof {
                assert forall|u: Seq<char>, t: Seq<char>|
                    quote_free(u) && quote_free(t) implies s@ != spec_url_state_json(u, t) by {
                    if s@ == spec_url_state_json(u, t) {
                        lemma_url_state_shape(s@, u, t);
                        lemma_first_stop(
                            s@,
                            j1 as int,
                            '"',
                            q1 as int,
                            ("{\"url\":\""@.len() + u.len()) as int,
                        );
                    }
                }
            }
            return None;
        },
    };
    let j3 = match scan_lit(s, q2, "\"}") {
        Some(j) => j,
        None => {
            proof {
                assert forall|u: Seq<char>, t: Seq<char>|
                    quote_free(u) && quote_free(t) implies s@ != spec_url_state_json(u, t) by {
                    if s@ == spec_url_state_json(u, t) {
                        lemma_url_state_shape(s@, u, t);
                        lemma_first_stop(
                            s@,
                            j1 as int,
                            '"',
                            q1 as int,
                            ("{\"url\":\""@.len() + u.len()) as int,
                        );
                        lemma_first_stop(
                            s@,
                            j2 as int,
                            '"',
                            q2 as int,
                            ("{\"url\":\""@.len() + u.len() + "\",\"state\":\""@.len()
                                + t.len()) as int,
                        );
                    }
                }
            }
            return None;
        },
    };
    let end = s.unicode_len();
    if j3 != end {
        proof {
            assert forall|u: Seq<char>, t: Seq<char>|
                quote_free(u) && quote_free(t) implies s@ != spec_url_state_json(u, t) by {
                if s@ == spec_url_state_json(u, t) {
                    lemma_url_state_shape(s@, u, t);
                    lemma_first_stop(
                        s@,
                        j1 as int,
                        '"',
                        q1 as int,
                        ("{\"url\":\""@.len() + u.len()) as int,
                    );
                    lemma_first_stop(
                        s@,
                        j2 as int,
                        '"',
                        q2 as int,
                        ("{\"url\":\""@.len() + u.len() + "\",\"state\":\""@.len()
                            + t.len()) as int,
                    );
                }
            }
        }
        return None;
    }
    proof {
        assert forall|k: int| 0 <= k < url@.len() implies url@[k] != '"' by {
            assert(url@[k] == s@.subrange(j1 as int, q1 as int)[k]);
        }
        assert forall|k: int| 0 <= k < token@.len() implies token@[k] != '"' by {
            assert(token@[k] == s@.subrange(j2 as int, q2 as int)[k]);
        }
        assert(s@.subrange(0, q1 as int) =~= s@.subrange(0, j1 as int) + s@.subrange(
            j1 as int,
            q1 as int,
        ));
        assert(s@.subrange(0, j2 as int) =~= s@.subrange(0, q1 as int) + s@.subrange(
            q1 as int,
            j2 as int,
        ));
        assert(s@.subrange(0, q2 as int) =~= s@.subrange(0, j2 as int) + s@.subrange(
            j2 as int,
            q2 as int,
        ));
        assert(s@.subrange(0, j3 as int) =~= s@.subrange(0, q2 as int) + s@.subrange(
            q2 as int,
            j3 as int,
        ));
        assert(s@ =~= s@.subrange(0, j3 as int));
        reveal(spec_url_state_json);
        assert(s@ == spec_url_state_json(url@, token@));
    }
    Some((url, token))
}

/// The management API's answer to a completion poll: a flat object carrying
/// one status word.
#[verifier::opaque]
pub open spec fn spec_status_json(v: Seq<char>) -> Seq<char> {
    "{\"status\":\""@ + v + "\"}"@
}

/// Where each piece of the poll answer stands.
proof fn lemma_status_shape(s: Seq<char>, v: Seq<char>)
    requires
        s == spec_status_json(v),
        quote_free(v),
    ensures
        lit_at(s, 0, "{\"status\":\""@),
        s.subrange("{\"status\":\""@.len() as int, ("{\"status\":\""@.len() + v.len()) as int)
            == v,
        (("{\"status\":\""@.len() + v.len()) as int) < s.len(),
        s[("{\"status\":\""@.len() + v.len()) as int] == '"',
        forall|k: int|
            "{\"status\":\""@.len() <= k < "{\"status\":\""@.len() + v.len() ==> s[k] != '"',
        lit_at(s, ("{\"status\":\""@.len() + v.len()) as int, "\"}"@),
        s.len() == "{\"status\":\""@.len() + v.len() + "\"}"@.len(),
{
    reveal(spec_status_json);
    let l1 = "{\"status\":\""@;
    let l3 = "\"}"@;
    let c1 = l1;
    let c2 = c1 + v;
    let p1 = l1.len() as int;
    let p2 = p1 + v.len();
    let p3 = p2 + l3.len();
    lemma_concat_pieces(c2, l3, s);
    lemma_concat_pieces(c1, v, c2);
    assert(s.subrange(p2, p3) == l3);
    assert(s.subrange(p1, p2) == c2.subrange(p1, p2) && c2.subrange(p1, p2) == v);
    assert(s.subrange(0, p1) == c2.subrange(0, p1) && c2.subrange(0, p1) == c1.subrange(0, p1));
    assert(c1.subrange(0, p1) =~= l1);
    reveal_strlit("\"}");
    assert(s[p2] == s.subrange(p2, p3)[0]);
    assert forall|k: int| p1 <= k < p2 implies s[k] != '"' by {
        assert(s[k] == s.subrange(p1, p2)[k - p1]);
    }
}

/// Reads the answer to a completion poll: exactly the documents above, for
/// a quote-free status word, are accepted, and the word is handed back.
#[verifier::rlimit(100)]
pub fn parse_status(s: &str) -> (r: Option<String>)
    ensures
        match r {
            Some(v) => quote_free(v@) && s@ == spec_status_json(v@),
            None => forall|v: Seq<char>| quote_free(v) ==> s@ != spec_status_json(v),
        },
{
    let j1 = match scan_lit(s, 0, "{\"status\":\"") {
        Some(j) => j,
        None => {
            proof {
                assert forall|v: Seq<char>| quote_free(v) implies s@ != spec_status_json(v) by {
                    if s@ == spec_status_json(v) {
                        lemma_status_shape(s@, v);
                    }
                }
            }
            return None;
        },
    };
    let (word, q1) = match take_until(s, j1, '"') {
        Some(v) => v,
        None => {
            proof {
                assert forall|v: Seq<char>| quote_free(v) implies s@ != spec_status_json(v) by {
                    if s@ == spec_status_json(v) {
                        lemma_status_shape(s@, v);
                    }
                }
            }
            return None;
        },
    };
    let j2 = match scan_lit(s, q1, "\"}") {
        Some(j) => j,
        None => {
            proof {
                assert forall|v: Seq<char>| quote_free(v) implies s@ != spec_status_json(v) by {
                    if s@ == spec_status_json(v) {
                        lemma_status_shape(s@, v);
                        lemma_first_stop(
                            s@,
                            j1 as int,
                            '"',
                            q1 as int,
                            ("{\"status\":\""@.len() + v.len()) as int,
                        );
                    }
                }
            }
            return None;
        },
    };
    let end = s.unicode_len();
    if j2 != end {
        proof {
            assert forall|v: Seq<char>| quote_free(v) implies s@ != spec_status_json(v) by {
                if s@ == spec_status_json(v) {
                    lemma_status_shape(s@, v);
                    lemma_first_stop(
                        s@,
                        j1 as int,
                        '"',
                        q1 as int,
                        ("{\"status\":\""@.len() + v.len()) as int,
                    );
                }
            }
        }
        return None;
    }
    proof {
        assert forall|k: int| 0 <= k < word@.len() implies word@[k] != '"' by {
            assert(word@[k] == s@.subrange(j1 as int, q1 as int)[k]);
        }
        assert(s@.subrange(0, q1 as int) =~= s@.subrange(0, j1 as int) + s@.subrange(
            j1 as int,
            q1 as int,
        ));
        assert(s@.subrange(0, j2 as int) =~= s@.subrange(0, q1 as int) + s@.subrange(
            q1 as int,
            j2 as int,
        ));
        assert(s@ =~= s@.subrange(0, j2 as int));
        reveal(spec_status_json);
        assert(s@ == spec_status_json(word@));
    }
    Some(word)
}

/// A status word is read back from the poll answer written for it.
pub proof fn lemma_status_json_injective(v1: Seq<char>, v2: Seq<char>)
    requires
        quote_free(v1),
        quote_free(v2),
        spec_status_json(v1) == spec_status_json(v2),
    ensures
        v1 == v2,
{
    let s = spec_status_json(v1);
    lemma_status_shape(s, v1);
    lemma_status_shape(s, v2);
    lemma_first_stop(
        s,
        "{\"status\":\""@.len() as int,
        '"',
        ("{\"status\":\""@.len() + v1.len()) as int,
        ("{\"status\":\""@.len() + v2.len()) as int,
    );
}

/// The inbound custom-scheme callback that completes an authorization round
/// trip: the delivered authorization code and state parameter.
#[verifier::opaque]
pub open spec fn spec_callback_url(code: Seq<char>, state: Seq<char>) -> Seq<char> {
    "proxypal://oauth/callback?code="@ + code + "&state="@ + state
}

/// Where each piece of the callback URL stands.
proof fn lemma_callback_shape(s: Seq<char>, code: Seq<char>, state: Seq<char>)
    requires
        s == spec_callback_url(code, state),
        amp_free(code),
    ensures
        lit_at(s, 0, "proxypal://oauth/callback?code="@),
        s.subrange(
            "proxypal://oauth/callback?code="@.len() as int,
            ("proxypal://oauth/callback?code="@.len() + code.len()) as int,
        ) == code,
        (("proxypal://oauth/callback?code="@.len() + code.len()) as int) < s.len(),
        s[("proxypal://oauth/callback?code="@.len() + code.len()) as int] == '&',
        forall|k: int|
            "proxypal://oauth/callback?code="@.len() <= k < "proxypal://oauth/callback?code="@.len()
                + code.len() ==> s[k] != '&',
        lit_at(s, ("proxypal://oauth/callback?code="@.len() + code.len()) as int, "&state="@),
        s.subrange(
            ("proxypal://oauth/callback?code="@.len() + code.len() + "&state="@.len()) as int,
            s.len() as int,
        ) == state,
        s.len() == "proxypal://oauth/callback?code="@.len() + code.len() + "&state="@.len()
            + state.len(),
{
    reveal(spec_callback_url);
    let l1 = "proxypal://oauth/callback?code="@;
    let l2 = "&state="@;
    let c1 = l1;
    let c2 = c1 + code;
    let c3 = c2 + l2;
    let p1 = l1.len() as int;
    let p2 = p1 + code.len();
    let p3 = p2 + l2.len();
    let p4 = p3 + state.len();
    lemma_concat_pieces(c3, state, s);
    lemma_concat_pieces(c2, l2, c3);
    lemma_concat_pieces(c1, code, c2);
    assert(s.subrange(p3, p4) == state);
    assert(s.subrange(p2, p3) == c3.subrange(p2, p3) && c3.subrange(p2, p3) == l2);
    assert(s.subrange(p1, p2) == c3.subrange(p1, p2) && c3.subrange(p1, p2) == c2.subrange(p1, p2)
        && c2.subrange(p1, p2) == code);
    assert(s.subrange(0, p1) == c3.subrange(0, p1) && c3.subrange(0, p1) == c2.subrange(0, p1)
        && c2.subrange(0, p1) == c1.subrange(0, p1));
    assert(c1.subrange(0, p1) =~= l1);
    reveal_strlit("&state=");
    assert(s[p2] == s.subrange(p2, p3)[0]);
    assert forall|k: int| p1 <= k < p2 implies s[k] != '&' by {
        assert(s[k] == s.subrange(p1, p2)[k - p1]);
    }
}

/// Reads an inbound callback URL: exactly the URLs above, for an
/// ampersand-free code, are accepted, and the code and state parameters are
/// handed back.
#[verifier::rlimit(100)]
pub fn parse_callback_url(s: &str) -> (r: Option<(String, String)>)
    ensures
        match r {
            Some(cs) => amp_free(cs.0@) && s@ == spec_callback_url(cs.0@, cs.1@),
            None => forall|code: Seq<char>, state: Seq<char>|
                amp_free(code) ==> s@ != spec_callback_url(code, state),
        },
{
    let j1 = match scan_lit(s, 0, "proxypal://oauth/callback?code=") {
        Some(j) => j,
        None => {
            proof {
                assert forall|code: Seq<char>, state: Seq<char>|
                    amp_free(code) implies s@ != spec_callback_url(code, state) by {
                    if s@ == spec_callback_url(code, state) {
                        lemma_callback_shape(s@, code, state);
                    }
                }
            }
            return None;
        },
    };
    let (code, q1) = match take_until(s, j1, '&') {
        Some(v) => v,
        None => {
            proof {
                assert forall|code: Seq<char>, state: Seq<char>|
                    amp_free(code) implies s@ != spec_callback_url(code, state) by {
                    if s@ == spec_callback_url(code, state) {
                        lemma_callback_shape(s@, code, state);
                    }
                }
            }
            return None;
        },
    };
    let j2 = match scan_lit(s, q1, "&state=") {
        Some(j) => j,
        None => {
            proof {
                assert forall|code: Seq<char>, state: Seq<char>|
                    amp_free(code) implies s@ != spec_callback_url(code, state) by {
                    if s@ == spec_callback_url(code, state) {
                        lemma_callback_shape(s@, code, state);
                        lemma_first_stop(
                            s@,
                            j1 as int,
                            '&',
                            q1 as int,
                            ("proxypal://oauth/callback?code="@.len() + code.len()) as int,
                        );
                    }
                }
            }
            return None;
        },
    };
    let end = s.unicode_len();
    let state = s.substring_char(j2, end).to_owned();
    proof {
        assert forall|k: int| 0 <= k < code@.len() implies code@[k] != '&' by {
            assert(code@[k] == s@.subrange(j1 as int, q1 as int)[k]);
        }
        assert(s@.subrange(0, q1 as int) =~= s@.subrange(0, j1 as int) + s@.subrange(
            j1 as int,
            q1 as int,
        ));
        assert(s@.subrange(0, j2 as int) =~= s@.subrange(0, q1 as int) + s@.subrange(
            q1 as int,
            j2 as int,
        ));
        assert(s@ =~= s@.subrange(0, j2 as int) + s@.subrange(j2 as int, s@.len() as int));
        reveal(spec_callback_url);
        assert(s@ == spec_callback_url(code@, state@));
    }
    Some((code, state))
}

} // verus!
