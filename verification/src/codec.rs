//! The persistence codec: a transcript written out as plain characters and
//! read back. Each message is one record — a role tag, a space, the content
//! length as a fixed-width decimal, a newline, the content itself, and a
//! closing newline — so any content, newlines included, survives the trip.
//! Decoding is proved to invert encoding.

use vstd::prelude::*;

use crate::ai_logic::{Message, Role, msg_model, transcript_model};
use crate::chars::{digit_char, digit_char_exec, digit_of, is_digit, str_chars, string_from_chars};

verus! {

/// Width of the decimal length field of every record.
pub const LEN_DIGITS: usize = 20;

/// The tag character that names each role.
pub open spec fn role_tag(r: Role) -> char {
    match r {
        Role::System => 's',
        Role::User => 'u',
        Role::Assistant => 'a',
    }
}

/// The role a tag character names, if any.
pub open spec fn tag_role(c: char) -> Option<Role> {
    if c == 's' {
        Option::Some(Role::System)
    } else if c == 'u' {
        Option::Some(Role::User)
    } else if c == 'a' {
        Option::Some(Role::Assistant)
    } else {
        Option::None
    }
}

/// Ten to the `k`.
pub open spec fn pow10(k: nat) -> nat
    decreases k,
{
    if k == 0 {
        1
    } else {
        10 * pow10((k - 1) as nat)
    }
}

/// `n` in decimal, zero-padded to exactly `k` digits (low digit last).
pub open spec fn digits_fixed(n: nat, k: nat) -> Seq<char>
    decreases k,
{
    if k == 0 {
        Seq::empty()
    } else {
        digits_fixed(n / 10, (k - 1) as nat).push(digit_char(n % 10))
    }
}

/// The value of a digit string (high digit first).
pub open spec fn digits_val(ds: Seq<char>) -> nat
    decreases ds.len(),
{
    if ds.len() == 0 {
        0
    } else {
        digits_val(ds.drop_last()) * 10 + digit_of(ds.last())
    }
}

/// All characters are digits.
pub open spec fn all_digits(ds: Seq<char>) -> bool {
    forall|i: int| 0 <= i < ds.len() ==> is_digit(#[trigger] ds[i])
}

/// One encoded record.
pub open spec fn enc_msg(m: (Role, Seq<char>)) -> Seq<char> {
    seq![role_tag(m.0), ' '] + digits_fixed(m.1.len(), LEN_DIGITS as nat) + seq!['\n'] + m.1
        + seq!['\n']
}

/// The whole transcript encoded, record after record.
pub open spec fn enc_model(model: Seq<(Role, Seq<char>)>) -> Seq<char>
    decreases model.len(),
{
    if model.len() == 0 {
        Seq::empty()
    } else {
        enc_msg(model[0]) + enc_model(model.drop_first())
    }
}

/// One record parsed off the front: the message and what follows it.
pub open spec fn parse_msg(s: Seq<char>) -> Option<((Role, Seq<char>), Seq<char>)> {
    if s.len() < 23 {
        Option::None
    } else if tag_role(s[0]) is None {
        Option::None
    } else if s[1] != ' ' {
        Option::None
    } else if !all_digits(s.subrange(2, 22)) {
        Option::None
    } else if s[22] != '\n' {
        Option::None
    } else {
        let n = digits_val(s.subrange(2, 22)) as int;
        let body = s.skip(23);
        if body.len() < n + 1 {
            Option::None
        } else if body[n] != '\n' {
            Option::None
        } else {
            Option::Some(((tag_role(s[0]).unwrap(), body.take(n)), body.skip(n + 1)))
        }
    }
}

/// The whole input parsed into a transcript model, or nothing if any record
/// is malformed or characters are left over.
pub open spec fn dec_model(s: Seq<char>) -> Option<Seq<(Role, Seq<char>)>>
    decreases s.len(),
{
    if s.len() == 0 {
        Option::Some(Seq::empty())
    } else {
        match parse_msg(s) {
            Option::None => Option::None,
            Option::Some((v, rest)) => {
                if rest.len() < s.len() {
                    match dec_model(rest) {
                        Option::None => Option::None,
                        Option::Some(tail) => Option::Some(seq![v] + tail),
                    }
                } else {
                    Option::None
                }
            },
        }
    }
}

proof fn lemma_digits_fixed_len(n: nat, k: nat)
    ensures
        digits_fixed(n, k).len() == k,
        all_digits(digits_fixed(n, k)),
    decreases k,
{
    if k > 0 {
        lemma_digits_fixed_len(n / 10, (k - 1) as nat);
        let ds = digits_fixed(n / 10, (k - 1) as nat);
        assert forall|i: int| 0 <= i < ds.push(digit_char(n % 10)).len() implies is_digit(
            #[trigger] ds.push(digit_char(n % 10))[i],
        ) by {
            if i < ds.len() {
                assert(ds.push(digit_char(n % 10))[i] == ds[i]);
            }
        }
    }
}

proof fn lemma_digits_fixed_val(n: nat, k: nat)
    requires
        n < pow10(k),
    ensures
        digits_val(digits_fixed(n, k)) == n,
    decreases k,
{
    if k == 0 {
        assert(pow10(0) == 1);
    } else {
        assert(n / 10 < pow10((k - 1) as nat)) by (nonlinear_arith)
            requires
                n < 10 * pow10((k - 1) as nat),
        ;
        lemma_digits_fixed_val(n / 10, (k - 1) as nat);
        let ds = digits_fixed(n / 10, (k - 1) as nat);
        assert(ds.push(digit_char(n % 10)).drop_last() =~= ds);
        assert(digit_of(digit_char(n % 10)) == n % 10);
        assert(n / 10 * 10 + n % 10 == n) by (nonlinear_arith);
    }
}

pub proof fn lemma_pow10_20()
    ensures
        pow10(LEN_DIGITS as nat) == 0x56bc75e2d63100000,
{
    reveal_with_fuel(pow10, 21);
}

/// Every length an executable transcript can have fits in the length field.
pub proof fn lemma_usize_fits()
    ensures
        usize::MAX < pow10(LEN_DIGITS as nat),
{
    lemma_pow10_20();
}

/// Parsing takes exactly one encoded record off the front.
proof fn lemma_parse_enc_msg(m: (Role, Seq<char>), rest: Seq<char>)
    requires
        m.1.len() < pow10(LEN_DIGITS as nat),
    ensures
        parse_msg(enc_msg(m) + rest) == Option::Some((m, rest)),
        enc_msg(m).len() == 24 + m.1.len(),
{
    let n = m.1.len() as int;
    let s = enc_msg(m) + rest;
    lemma_digits_fixed_len(m.1.len(), LEN_DIGITS as nat);
    lemma_digits_fixed_val(m.1.len(), LEN_DIGITS as nat);
    assert(s[0] == role_tag(m.0));
    assert(tag_role(role_tag(m.0)) == Option::Some(m.0));
    assert(s[1] == ' ');
    assert(s.subrange(2, 22) =~= digits_fixed(m.1.len(), LEN_DIGITS as nat));
    assert(s[22] == '\n');
    assert(s.skip(23) =~= m.1 + seq!['\n'] + rest);
    let body = s.skip(23);
    assert(body.len() == n + 1 + rest.len());
    assert(body[n] == '\n');
    assert(body.take(n) =~= m.1);
    assert(body.skip(n + 1) =~= rest);
}

/// Decoding inverts encoding: any transcript model written out is read back
/// exactly, record for record.
pub proof fn lemma_round_trip(model: Seq<(Role, Seq<char>)>)
    requires
        forall|i: int| 0 <= i < model.len() ==> (#[trigger] model[i]).1.len() < pow10(
            LEN_DIGITS as nat,
        ),
    ensures
        dec_model(enc_model(model)) == Option::Some(model),
    decreases model.len(),
{
    if model.len() == 0 {
    } else {
        let s = enc_model(model);
        lemma_parse_enc_msg(model[0], enc_model(model.drop_first()));
        assert(parse_msg(s) == Option::Some((model[0], enc_model(model.drop_first()))));
        assert(s.len() == 24 + model[0].1.len() + enc_model(model.drop_first()).len());
        lemma_round_trip(model.drop_first());
        assert(seq![model[0]] + model.drop_first() =~= model);
    }
}

/// Append `n` as exactly `k` zero-padded decimal digits.
fn push_digits_fixed(out: &mut Vec<char>, n: usize, k: usize)
    ensures
        final(out)@ == old(out)@ + digits_fixed(n as nat, k as nat),
    decreases k,
{
    if k == 0 {
        assert(out@ =~= old(out)@ + digits_fixed(n as nat, 0));
    } else {
        push_digits_fixed(out, n / 10, k - 1);
        out.push(digit_char_exec(n % 10));
        assert(out@ =~= old(out)@ + digits_fixed(n as nat, k as nat));
    }
}

proof fn lemma_enc_model_snoc(model: Seq<(Role, Seq<char>)>, m: (Role, Seq<char>))
    ensures
        enc_model(model.push(m)) == enc_model(model) + enc_msg(m),
    decreases model.len(),
{
    reveal_with_fuel(enc_model, 3);
    if model.len() == 0 {
        assert(model.push(m)[0] == m);
        assert(model.push(m).drop_first() =~= Seq::<(Role, Seq<char>)>::empty());
        assert(enc_model(model.push(m)) =~= enc_model(model) + enc_msg(m));
    } else {
        assert(model.push(m).drop_first() =~= model.drop_first().push(m));
        assert(model.push(m)[0] == model[0]);
        lemma_enc_model_snoc(model.drop_first(), m);
        assert(enc_model(model.push(m)) =~= enc_model(model) + enc_msg(m));
    }
}

/// Write the whole transcript out as characters.
pub fn encode_transcript(ms: &Vec<Message>) -> (r: Vec<char>)
    ensures
        r@ == enc_model(transcript_model(ms@)),
{
    let mut out: Vec<char> = Vec::new();
    let mut j: usize = 0;
    proof {
        assert(transcript_model(ms@).take(0) =~= Seq::<(Role, Seq<char>)>::empty());
    }
    while j < ms.len()
        invariant
            j <= ms@.len(),
            out@ == enc_model(transcript_model(ms@).take(j as int)),
        decreases ms@.len() - j,
    {
        let ghost done = transcript_model(ms@).take(j as int);
        let m = &ms[j];
        let tag = match m.role {
            Role::System => 's',
            Role::User => 'u',
            Role::Assistant => 'a',
        };
        out.push(tag);
        out.push(' ');
        let content = str_chars(m.content.as_str());
        push_digits_fixed(&mut out, content.len(), LEN_DIGITS);
        out.push('\n');
        crate::chars::extend_chars(&mut out, &content);
        out.push('\n');
        proof {
            lemma_enc_model_snoc(done, msg_model(ms@[j as int]));
            assert(transcript_model(ms@).take(j + 1) =~= done.push(msg_model(ms@[j as int])));
            assert(out@ =~= enc_model(done) + enc_msg(msg_model(ms@[j as int])));
        }
        j += 1;
    }
    proof {
        assert(transcript_model(ms@).take(ms@.len() as int) =~= transcript_model(ms@));
    }
    out
}

/// Read a transcript back from characters. Returns the decoded messages, or
/// nothing if the input is not exactly a sequence of well-formed records.
pub fn decode_transcript(s: &Vec<char>) -> (r: Option<Vec<Message>>)
    ensures
        (match r {
            Option::Some(ms) => dec_model(s@) == Option::Some(transcript_model(ms@)),
            Option::None => dec_model(s@) is None,
        }),
{
    let mut out: Vec<Message> = Vec::new();
    let mut pos: usize = 0;
    proof {
        assert(s@.skip(0) =~= s@);
        assert(transcript_model(out@) =~= Seq::<(Role, Seq<char>)>::empty());
    }
    while pos < s.len()
        invariant
            pos <= s@.len(),
            ({
                let tail = dec_model(s@.skip(pos as int));
                dec_model(s@) == (match tail {
                    Option::Some(t) => Option::Some(transcript_model(out@) + t),
                    Option::None => Option::<Seq<(Role, Seq<char>)>>::None,
                })
            }),
        decreases s@.len() - pos,
    {
        let ghost rem = s@.skip(pos as int);
        if s.len() - pos < 23 {
            proof {
                assert(parse_msg(rem) is None);
                assert(dec_model(rem) is None);
            }
            return None;
        }
        proof {
            assert(rem.len() >= 23);
            assert(rem[0] == s@[pos as int]);
        }
        let role = match s[pos] {
            's' => Role::System,
            'u' => Role::User,
            'a' => Role::Assistant,
            _ => {
                proof {
                    assert(tag_role(rem[0]) is None);
                    assert(parse_msg(rem) is None);
                    assert(dec_model(rem) is None);
                }
                return None;
            },
        };
        proof {
            assert(tag_role(rem[0]) == Option::Some(role));
            assert(rem[1] == s@[pos as int + 1]);
        }
        if s[pos + 1] != ' ' {
            proof {
                assert(parse_msg(rem) is None);
                assert(dec_model(rem) is None);
            }
            return None;
        }
        let ghost ds = rem.subrange(2, 22);
        let mut n128: u128 = 0;
        let mut j: usize = 0;
        proof {
            lemma_pow10_20();
            assert(ds.take(0) =~= Seq::<char>::empty());
            assert forall|k: nat| k <= 20 implies #[trigger] pow10(k) <= pow10(20) by {
                lemma_pow10_monotone(k, 20);
            }
        }
        while j < 20
            invariant
                j <= 20,
                s@.len() <= usize::MAX,
                pos + 23 <= s@.len(),
                rem == s@.skip(pos as int),
                ds == rem.subrange(2, 22),
                all_digits(ds.take(j as int)),
                n128 == digits_val(ds.take(j as int)),
                n128 < pow10(j as nat),
                pow10(20) == 0x56bc75e2d63100000,
                forall|k: nat| k <= 20 ==> #[trigger] pow10(k) <= pow10(20),
                ({
                    let tail = dec_model(s@.skip(pos as int));
                    dec_model(s@) == (match tail {
                        Option::Some(t) => Option::Some(transcript_model(out@) + t),
                        Option::None => Option::<Seq<(Role, Seq<char>)>>::None,
                    })
                }),
                tag_role(rem[0]) is Some,
                rem[1] == ' ',
            decreases 20 - j,
        {
            let c = s[pos + 2 + j];
            proof {
                assert(ds[j as int] == s@[pos as int + 2 + j]);
            }
            let u = c as u32;
            if u < 48 || u > 57 {
                proof {
                    assert(!is_digit(ds[j as int]));
                    assert(!all_digits(ds));
                    assert(parse_msg(rem) is None);
                    assert(dec_model(rem) is None);
                }
                return None;
            }
            proof {
                assert(ds.take(j + 1).drop_last() =~= ds.take(j as int));
                assert(ds.take(j + 1).last() == ds[j as int]);
                assert(n128 * 10 + 9 < 10 * pow10(j as nat)) by (nonlinear_arith)
                    requires
                        n128 < pow10(j as nat),
                ;
                assert(10 * pow10(j as nat) == pow10((j + 1) as nat));
                assert forall|i: int| 0 <= i < j + 1 implies is_digit(
                    #[trigger] ds.take(j + 1)[i],
                ) by {
                    assert(ds.take(j + 1)[i] == ds[i]);
                    if i < j {
                        assert(ds.take(j as int)[i] == ds[i]);
                    }
                }
            }
            n128 = n128 * 10 + ((u - 48) as u128);
            j += 1;
        }
        proof {
            assert(ds.take(20) =~= ds);
            assert(all_digits(ds));
            assert(rem[22] == s@[pos as int + 22]);
        }
        if s[pos + 22] != '\n' {
            proof {
                assert(parse_msg(rem) is None);
                assert(dec_model(rem) is None);
            }
            return None;
        }
        let body_len: usize = s.len() - pos - 23;
        proof {
            assert(rem.skip(23).len() == body_len);
        }
        if (body_len as u128) < n128 + 1 {
            proof {
                assert(rem.skip(23).len() < digits_val(ds) + 1);
                assert(parse_msg(rem) is None);
                assert(dec_model(rem) is None);
            }
            return None;
        }
        let n: usize = n128 as usize;
        proof {
            assert(n + 1 <= body_len);
            assert(pos + 23 + n < s@.len());
            assert(rem.skip(23)[n as int] == s@[pos as int + 23 + n]);
        }
        if s[pos + 23 + n] != '\n' {
            proof {
                assert(parse_msg(rem) is None);
                assert(dec_model(rem) is None);
            }
            return None;
        }
        let mut content_chars: Vec<char> = Vec::new();
        let mut t: usize = 0;
        while t < n
            invariant
                t <= n,
                s@.len() <= usize::MAX,
                pos + 23 + n < s@.len(),
                content_chars@ == s@.subrange(pos as int + 23, pos as int + 23 + t),
            decreases n - t,
        {
            content_chars.push(s[pos + 23 + t]);
            assert(content_chars@ =~= s@.subrange(pos as int + 23, pos as int + 23 + t + 1));
            t += 1;
        }
        proof {
            assert(content_chars@ =~= rem.skip(23).take(n as int));
        }
        let content = string_from_chars(&content_chars);
        let msg = Message { role, content };
        let ghost v = (role, content@);
        let new_pos = pos + 24 + n;
        proof {
            assert(rem.skip(23).skip(n as int + 1) =~= s@.skip(new_pos as int));
            assert(parse_msg(rem) == Option::Some((v, s@.skip(new_pos as int))));
            assert(transcript_model(out@.push(msg)) =~= transcript_model(out@).push(v));
            let tail2 = dec_model(s@.skip(new_pos as int));
            match tail2 {
                Option::Some(t2) => {
                    assert(dec_model(rem) == Option::Some(seq![v] + t2));
                    assert(transcript_model(out@) + (seq![v] + t2) =~= transcript_model(
                        out@.push(msg),
                    ) + t2);
                },
                Option::None => {
                    assert(dec_model(rem) is None);
                },
            }
        }
        out.push(msg);
        pos = new_pos;
    }
    proof {
        assert(s@.skip(s@.len() as int) =~= Seq::<char>::empty());
        assert(transcript_model(out@) + Seq::<(Role, Seq<char>)>::empty() =~= transcript_model(
            out@,
        ));
    }
    Some(out)
}

proof fn lemma_pow10_monotone(a: nat, b: nat)
    requires
        a <= b,
    ensures
        pow10(a) <= pow10(b),
    decreases b,
{
    if a < b {
        lemma_pow10_monotone(a, (b - 1) as nat);
        assert(pow10(b) == 10 * pow10((b - 1) as nat));
    }
}

} // verus!
