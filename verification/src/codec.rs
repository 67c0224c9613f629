//! The self-describing encoding of a persisted session: a two-character
//! format tag, then each field as a length-prefixed string, options tagged
//! present or absent.  Decoding inverts encoding exactly; the round trip is
//! proved below.

use vstd::prelude::*;

use crate::digits::all_digits;
use crate::digits::dec_value;
use crate::digits::dec_value_capped;
use crate::digits::digits_of;
use crate::digits::digits_str;
use crate::digits::is_digit;
use crate::digits::is_digit_exec;
use crate::digits::lemma_digits_of;
use crate::session::ClientSession;
use crate::session::ClientSessionData;
use crate::session::PersistedSession;
use crate::session::SessionData;
use crate::session::UserSession;
use crate::session::UserSessionData;

verus! {

/// A string field: its length in decimal, a colon, then its characters.
pub open spec fn enc_str(s: Seq<char>) -> Seq<char> {
    digits_of(s.len()) + seq![':'] + s
}

/// An optional string field: `n` when absent, `s` then the field when present.
pub open spec fn enc_opt(o: Option<Seq<char>>) -> Seq<char> {
    match o {
        None => seq!['n'],
        Some(s) => seq!['s'] + enc_str(s),
    }
}

/// The encoding of a whole session record.
pub open spec fn encode_spec(v: SessionData) -> Seq<char> {
    seq!['S', '1'] + enc_str(v.client_session.homeserver) + enc_str(v.client_session.db_path)
        + enc_str(v.client_session.passphrase) + enc_str(v.user_session.user_id) + enc_str(
        v.user_session.device_id,
    ) + enc_str(v.user_session.access_token) + enc_opt(v.user_session.refresh_token) + enc_opt(
        v.sync_token,
    )
}

/// The longest digit prefix of `s`, and what follows it.
pub open spec fn split_digits(s: Seq<char>) -> (Seq<char>, Seq<char>)
    decreases s.len(),
{
    if s.len() > 0 && is_digit(s[0]) {
        let (d, r) = split_digits(s.drop_first());
        (seq![s[0]] + d, r)
    } else {
        (Seq::empty(), s)
    }
}

/// Read one string field: `None` if `s` does not start with a well-formed
/// field, else the field's characters and the rest of `s`.
pub open spec fn dec_str(s: Seq<char>) -> Option<(Seq<char>, Seq<char>)> {
    let (ds, r) = split_digits(s);
    if ds.len() == 0 || r.len() == 0 || r[0] != ':' {
        None
    } else {
        let n = dec_value(ds);
        let body = r.drop_first();
        if body.len() >= n {
            Some((body.take(n as int), body.skip(n as int)))
        } else {
            None
        }
    }
}

/// Read one optional string field.
pub open spec fn dec_opt(s: Seq<char>) -> Option<(Option<Seq<char>>, Seq<char>)> {
    if s.len() == 0 {
        None
    } else if s[0] == 'n' {
        Some((None, s.drop_first()))
    } else if s[0] == 's' {
        match dec_str(s.drop_first()) {
            Some((v, r)) => Some((Some(v), r)),
            None => None,
        }
    } else {
        None
    }
}

/// Decode a whole session record; `None` on any malformed or trailing input.
pub open spec fn decode_spec(s: Seq<char>) -> Option<SessionData> {
    if s.len() < 2 || s[0] != 'S' || s[1] != '1' {
        None
    } else {
        match dec_str(s.skip(2)) {
            None => None,
            Some((homeserver, s1)) => match dec_str(s1) {
                None => None,
                Some((db_path, s2)) => match dec_str(s2) {
                    None => None,
                    Some((passphrase, s3)) => match dec_str(s3) {
                        None => None,
                        Some((user_id, s4)) => match dec_str(s4) {
                            None => None,
                            Some((device_id, s5)) => match dec_str(s5) {
                                None => None,
                                Some((access_token, s6)) => match dec_opt(s6) {
                                    None => None,
                                    Some((refresh_token, s7)) => match dec_opt(s7) {
                                        None => None,
                                        Some((sync_token, s8)) => if s8.len() == 0 {
                                            Some(
                                                SessionData {
                                                    client_session: ClientSessionData {
                                                        homeserver,
                                                        db_path,
                                                        passphrase,
                                                    },
                                                    user_session: UserSessionData {
                                                        user_id,
                                                        device_id,
                                                        access_token,
                                                        refresh_token,
                                                    },
                                                    sync_token,
                                                },
                                            )
                                        } else {
                                            None
                                        },
                                    },
                                },
                            },
                        },
                    },
                },
            },
        }
    }
}

/// A digit run followed by a non-digit splits exactly at the boundary.
pub proof fn lemma_split_digits_exact(ds: Seq<char>, r: Seq<char>)
    requires
        all_digits(ds),
        r.len() == 0 || !is_digit(r[0]),
    ensures
        split_digits(ds + r) == (ds, r),
    decreases ds.len(),
{
    if ds.len() == 0 {
        assert(ds + r =~= r);
    } else {
        assert((ds + r)[0] == ds[0]);
        assert(is_digit(ds[0]));
        assert((ds + r).drop_first() =~= ds.drop_first() + r);
        lemma_split_digits_exact(ds.drop_first(), r);
        assert(seq![(ds + r)[0]] + ds.drop_first() =~= ds);
    }
}

/// Reading a string field undoes writing one, whatever follows it.
pub proof fn lemma_dec_enc_str(v: Seq<char>, rest: Seq<char>)
    ensures
        dec_str(enc_str(v) + rest) == Some((v, rest)),
{
    lemma_digits_of(v.len());
    let tail = seq![':'] + v + rest;
    assert(enc_str(v) + rest =~= digits_of(v.len()) + tail);
    assert(!is_digit(tail[0]));
    lemma_split_digits_exact(digits_of(v.len()), tail);
    assert(tail[0] == ':');
    assert(tail.drop_first() =~= v + rest);
    assert((v + rest).take(v.len() as int) =~= v);
    assert((v + rest).skip(v.len() as int) =~= rest);
}

/// Reading an optional field undoes writing one, whatever follows it.
pub proof fn lemma_dec_enc_opt(o: Option<Seq<char>>, rest: Seq<char>)
    ensures
        dec_opt(enc_opt(o) + rest) == Some((o, rest)),
{
    match o {
        None => {
            let s = enc_opt(o) + rest;
            assert(s[0] == 'n');
            assert(s.drop_first() =~= rest);
        },
        Some(v) => {
            let s = enc_opt(o) + rest;
            assert(s[0] == 's');
            assert(s[0] != 'n');
            assert(s.drop_first() =~= enc_str(v) + rest);
            lemma_dec_enc_str(v, rest);
        },
    }
}

/// Decoding undoes encoding: the round trip of a session record is lossless.
pub proof fn lemma_session_round_trip(v: SessionData)
    ensures
        decode_spec(encode_spec(v)) == Some(v),
{
    let e1 = enc_str(v.client_session.homeserver);
    let e2 = enc_str(v.client_session.db_path);
    let e3 = enc_str(v.client_session.passphrase);
    let e4 = enc_str(v.user_session.user_id);
    let e5 = enc_str(v.user_session.device_id);
    let e6 = enc_str(v.user_session.access_token);
    let e7 = enc_opt(v.user_session.refresh_token);
    let e8 = enc_opt(v.sync_token);
    let s = encode_spec(v);
    assert(s.len() >= 2 && s[0] == 'S' && s[1] == '1');
    let r1 = e2 + (e3 + (e4 + (e5 + (e6 + (e7 + e8)))));
    assert(s.skip(2) =~= e1 + r1);
    lemma_dec_enc_str(v.client_session.homeserver, r1);
    let r2 = e3 + (e4 + (e5 + (e6 + (e7 + e8))));
    assert(r1 =~= e2 + r2);
    lemma_dec_enc_str(v.client_session.db_path, r2);
    let r3 = e4 + (e5 + (e6 + (e7 + e8)));
    assert(r2 =~= e3 + r3);
    lemma_dec_enc_str(v.client_session.passphrase, r3);
    let r4 = e5 + (e6 + (e7 + e8));
    assert(r3 =~= e4 + r4);
    lemma_dec_enc_str(v.user_session.user_id, r4);
    let r5 = e6 + (e7 + e8);
    assert(r4 =~= e5 + r5);
    lemma_dec_enc_str(v.user_session.device_id, r5);
    let r6 = e7 + e8;
    assert(r5 =~= e6 + r6);
    lemma_dec_enc_str(v.user_session.access_token, r6);
    let r7 = e8;
    assert(r6 =~= e7 + r7);
    lemma_dec_enc_opt(v.user_session.refresh_token, r7);
    let r8 = Seq::<char>::empty();
    assert(r7 =~= e8 + r8);
    lemma_dec_enc_opt(v.sync_token, r8);
}

/// Append one string field to the output.
fn append_field(out: &mut String, s: &str)
    ensures
        final(out)@ == old(out)@ + enc_str(s@),
{
    let lenstr = digits_str(s.unicode_len());
    out.append(lenstr.as_str());
    out.append(":");
    out.append(s);
    proof {
        reveal_strlit(":");
        assert(":"@ =~= seq![':']);
        assert(old(out)@ + digits_of(s@.len()) + ":"@ + s@ =~= old(out)@ + enc_str(s@));
    }
}

/// Append one optional string field to the output.
fn append_opt(out: &mut String, o: &Option<String>)
    ensures
        final(out)@ == old(out)@ + enc_opt(o.deep_view()),
{
    match o {
        None => {
            out.append("n");
            proof {
                reveal_strlit("n");
                assert("n"@ =~= seq!['n']);
                assert(old(out)@ + "n"@ =~= old(out)@ + enc_opt(None));
            }
        },
        Some(s) => {
            out.append("s");
            append_field(out, s.as_str());
            proof {
                reveal_strlit("s");
                assert("s"@ =~= seq!['s']);
                assert(old(out)@ + "s"@ + enc_str(s@) =~= old(out)@ + enc_opt(Some(s@)));
            }
        },
    }
}

/// Two different session records never share an encoding: the stored text
/// determines the session that wrote it.
pub proof fn lemma_encode_injective(a: SessionData, b: SessionData)
    requires
        encode_spec(a) == encode_spec(b),
    ensures
        a == b,
{
    lemma_session_round_trip(a);
    lemma_session_round_trip(b);
}

/// Read one string field starting at `pos`.
fn read_field(s: &str, pos: usize) -> (r: Option<(String, usize)>)
    requires
        pos <= s@.len(),
    ensures
        match r {
            Some(v) => pos <= v.1 <= s@.len() && dec_str(s@.skip(pos as int)) == Some(
                (v.0@, s@.skip(v.1 as int)),
            ),
            None => dec_str(s@.skip(pos as int)) is None,
        },
{
    let len = s.unicode_len();
    let mut j: usize = pos;
    while j < len && is_digit_exec(s.get_char(j))
        invariant
            pos <= j <= len == s@.len(),
            forall|i: int| pos <= i < j ==> is_digit(#[trigger] s@[i]),
        decreases len - j,
    {
        j = j + 1;
    }
    let ghost ds = s@.subrange(pos as int, j as int);
    let ghost rr = s@.skip(j as int);
    proof {
        assert(all_digits(ds));
        assert(s@.skip(pos as int) =~= ds + rr);
        if j < len {
            assert(rr[0] == s@[j as int]);
            assert(!is_digit(rr[0]));
        } else {
            assert(rr =~= Seq::<char>::empty());
        }
        lemma_split_digits_exact(ds, rr);
    }
    if j == pos {
        return None;
    }
    if j == len {
        return None;
    }
    proof {
        assert(rr[0] == s@[j as int]);
    }
    if s.get_char(j) != ':' {
        return None;
    }
    let body_len = len - j - 1;
    let ghost body = s@.skip(j as int + 1);
    proof {
        assert(rr.drop_first() =~= body);
        assert(body.len() == body_len);
    }
    match dec_value_capped(s, pos, j, body_len) {
        None => None,
        Some(v) => {
            let end = j + 1 + v;
            let field = s.substring_char(j + 1, end).to_owned();
            proof {
                assert(body.take(v as int) =~= s@.subrange(j as int + 1, end as int));
                assert(body.skip(v as int) =~= s@.skip(end as int));
            }
            Some((field, end))
        },
    }
}

/// Read one optional string field starting at `pos`.
fn read_opt_field(s: &str, pos: usize) -> (r: Option<(Option<String>, usize)>)
    requires
        pos <= s@.len(),
    ensures
        match r {
            Some(v) => pos <= v.1 <= s@.len() && dec_opt(s@.skip(pos as int)) == Some(
                (v.0.deep_view(), s@.skip(v.1 as int)),
            ),
            None => dec_opt(s@.skip(pos as int)) is None,
        },
{
    let len = s.unicode_len();
    if pos == len {
        proof {
            assert(s@.skip(pos as int) =~= Seq::<char>::empty());
        }
        return None;
    }
    proof {
        assert(s@.skip(pos as int)[0] == s@[pos as int]);
        assert(s@.skip(pos as int).drop_first() =~= s@.skip(pos as int + 1));
    }
    let c = s.get_char(pos);
    if c == 'n' {
        Some((None, pos + 1))
    } else if c == 's' {
        match read_field(s, pos + 1) {
            Some((v, p2)) => Some((Some(v), p2)),
            None => None,
        }
    } else {
        None
    }
}

/// Deserialize a session record; `None` exactly on input that no session
/// record encodes to.
pub fn decode_session(s: &str) -> (r: Option<PersistedSession>)
    ensures
        match r {
            Some(p) => decode_spec(s@) == Some(p.deep_view()),
            None => decode_spec(s@) is None,
        },
{
    let len = s.unicode_len();
    if len < 2 {
        return None;
    }
    if s.get_char(0) != 'S' || s.get_char(1) != '1' {
        return None;
    }
    let (homeserver, p1) = match read_field(s, 2) {
        Some(v) => v,
        None => {
            return None;
        },
    };
    let (db_path, p2) = match read_field(s, p1) {
        Some(v) => v,
        None => {
            return None;
        },
    };
    let (passphrase, p3) = match read_field(s, p2) {
        Some(v) => v,
        None => {
            return None;
        },
    };
    let (user_id, p4) = match read_field(s, p3) {
        Some(v) => v,
        None => {
            return None;
        },
    };
    let (device_id, p5) = match read_field(s, p4) {
        Some(v) => v,
        None => {
            return None;
        },
    };
    let (access_token, p6) = match read_field(s, p5) {
        Some(v) => v,
        None => {
            return None;
        },
    };
    let (refresh_token, p7) = match read_opt_field(s, p6) {
        Some(v) => v,
        None => {
            return None;
        },
    };
    let (sync_token, p8) = match read_opt_field(s, p7) {
        Some(v) => v,
        None => {
            return None;
        },
    };
    if p8 != len {
        return None;
    }
    proof {
        assert(s@.skip(p8 as int) =~= Seq::<char>::empty());
    }
    Some(
        PersistedSession {
            client_session: ClientSession { homeserver, db_path, passphrase },
            user_session: UserSession { user_id, device_id, access_token, refresh_token },
            sync_token,
        },
    )
}

/// Serialize a session record.
pub fn encode_session(p: &PersistedSession) -> (r: String)
    ensures
        r@ == encode_spec(p.deep_view()),
{
    let mut out = "S1".to_owned();
    proof {
        reveal_strlit("S1");
        assert("S1"@ =~= seq!['S', '1']);
    }
    append_field(&mut out, p.client_session.homeserver.as_str());
    append_field(&mut out, p.client_session.db_path.as_str());
    append_field(&mut out, p.client_session.passphrase.as_str());
    append_field(&mut out, p.user_session.user_id.as_str());
    append_field(&mut out, p.user_session.device_id.as_str());
    append_field(&mut out, p.user_session.access_token.as_str());
    append_opt(&mut out, &p.user_session.refresh_token);
    append_opt(&mut out, &p.sync_token);
    proof {
        assert(out@ =~= encode_spec(p.deep_view()));
    }
    out
}

} // verus!
