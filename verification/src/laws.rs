//! The laws the codec obeys, proved over the same specifications the
//! executable functions are verified against: parsing after rendering
//! returns the message unchanged, parsing ignores the width of separator
//! runs, rendering is canonical, and the JSON bodies omit absent fields.

use vstd::prelude::*;

verus! {

use crate::is_sep;
use crate::parser::{
    err_header_spec, err_prefix, kw_connect, kw_err, kw_info, kw_msg, kw_ok, kw_ping, kw_pong,
    kw_pub, kw_sub, kw_unsub, msg_header_spec, pub_header_spec, split_spec, sub_header_spec,
    unsub_header_spec,
};
use crate::render::{
    crlf, msg_tokens_of, payload_str_spec, pub_tokens_of, render_delivered, render_error,
    render_publish, render_spec, render_subscribe, render_unsubscribe, sp, sub_tokens_of,
    unsub_tokens_of,
};
use crate::text::{
    dec_str, find_char_from, find_crlf_from, is_digit_char, join_tokens, lemma_dec_str,
    lemma_dec_str_token_wf, lemma_tokenize_join, no_cr_lf, starts_with, strip_crlf, token_wf,
    tokenize, tokens_wf,
};
use vstd::utf8::decode_utf8_encode_utf8;

pub proof fn lemma_no_cr_lf_concat(a: Seq<char>, b: Seq<char>)
    requires
        no_cr_lf(a),
        no_cr_lf(b),
    ensures
        no_cr_lf(a + b),
{
    assert forall|i: int| 0 <= i < (a + b).len() implies (a + b)[i] != '\r' && (a + b)[i]
        != '\n' by {
        if i < a.len() {
            assert((a + b)[i] == a[i]);
        } else {
            assert((a + b)[i] == b[i - a.len()]);
        }
    }
}

/// A decimal number is a clean field: non-empty, no separators, no line
/// breaks.
pub proof fn lemma_dec_str_field(n: nat)
    ensures
        token_wf(dec_str(n)),
        no_cr_lf(dec_str(n)),
{
    lemma_dec_str(n);
    lemma_dec_str_token_wf(n);
    assert forall|i: int| 0 <= i < dec_str(n).len() implies dec_str(n)[i] != '\r' && dec_str(n)[i]
        != '\n' by {
        assert(is_digit_char(dec_str(n)[i]));
    }
}

/// Joining clean fields yields a line without carriage returns or line
/// feeds.
pub proof fn lemma_join_no_cr_lf(ts: Seq<Seq<char>>)
    requires
        forall|i: int| 0 <= i < ts.len() ==> no_cr_lf(#[trigger] ts[i]),
    ensures
        no_cr_lf(join_tokens(ts)),
    decreases ts.len(),
{
    if ts.len() == 0 {
    } else if ts.len() == 1 {
        assert(no_cr_lf(ts[0]));
    } else {
        assert(forall|i: int|
            0 <= i < ts.drop_first().len() ==> no_cr_lf(#[trigger] ts.drop_first()[i]));
        lemma_join_no_cr_lf(ts.drop_first());
        assert(no_cr_lf(seq![' ']));
        lemma_no_cr_lf_concat(ts[0], seq![' ']);
        lemma_no_cr_lf_concat(ts[0] + seq![' '], join_tokens(ts.drop_first()));
    }
}

/// Pin the first CRLF pair of a text down.
pub proof fn lemma_find_crlf_exact(s: Seq<char>, i: int, j: int)
    requires
        0 <= i <= j,
        j + 1 < s.len(),
        s[j] == '\r',
        s[j + 1] == '\n',
        forall|k: int| i <= k < j ==> !(#[trigger] s[k] == '\r' && s[k + 1] == '\n'),
    ensures
        find_crlf_from(s, i) == j,
    decreases j - i,
{
    if i == j {
    } else {
        assert(!(s[i] == '\r' && s[i + 1] == '\n'));
        lemma_find_crlf_exact(s, i + 1, j);
    }
}

/// Pin the first occurrence of a character down.
pub proof fn lemma_find_char_exact(s: Seq<char>, i: int, j: int, c: char)
    requires
        0 <= i <= j < s.len(),
        s[j] == c,
        forall|k: int| i <= k < j ==> s[k] != c,
    ensures
        find_char_from(s, i, c) == j,
    decreases j - i,
{
    if i == j {
    } else {
        lemma_find_char_exact(s, i + 1, j, c);
    }
}

/// A joined line starts with its first field.
pub proof fn lemma_join_starts_with_first(ts: Seq<Seq<char>>)
    requires
        ts.len() > 0,
    ensures
        starts_with(join_tokens(ts), ts[0]),
{
    if ts.len() == 1 {
    } else {
        let s = join_tokens(ts);
        assert forall|i: int| 0 <= i < ts[0].len() implies s[i] == ts[0][i] by {
            assert((ts[0] + seq![' '] + join_tokens(ts.drop_first()))[i] == ts[0][i]);
        }
    }
}

/// A prefix of a text is a prefix of any extension of it.
pub proof fn lemma_starts_with_extend(a: Seq<char>, b: Seq<char>, p: Seq<char>)
    requires
        starts_with(a, p),
    ensures
        starts_with(a + b, p),
{
    assert forall|i: int| 0 <= i < p.len() implies (a + b)[i] == p[i] by {
        assert((a + b)[i] == a[i]);
    }
}

} // verus!

verus! {

use crate::{
    error_text_wf, msg_message_spec, pub_message_spec, sub_message_spec, unsub_message_spec,
    MessageModel, SubscribeModel, UnsubscribeModel,
};

proof fn lemma_keyword_fields()
    ensures
        token_wf(kw_msg()) && no_cr_lf(kw_msg()),
        token_wf(kw_pub()) && no_cr_lf(kw_pub()),
        token_wf(kw_sub()) && no_cr_lf(kw_sub()),
        token_wf(kw_unsub()) && no_cr_lf(kw_unsub()),
{
}

/// Rendering a subscription and parsing the line back returns it
/// unchanged.
pub proof fn lemma_roundtrip_subscribe(m: SubscribeModel)
    requires
        m.wf(),
    ensures
        sub_message_spec(render_subscribe(m)) == Ok::<SubscribeModel, Seq<char>>(m),
{
    lemma_keyword_fields();
    let ts = sub_tokens_of(m);
    let sid_tok = dec_str(m.subscription_id as nat);
    lemma_dec_str(m.subscription_id as nat);
    lemma_dec_str_field(m.subscription_id as nat);
    match m.queue_group {
        None => {
            assert(ts =~= seq![kw_sub(), m.subject, sid_tok]);
            assert forall|i: int| 0 <= i < ts.len() implies token_wf(#[trigger] ts[i]) by {
                if i == 0 {
                    assert(ts[i] == kw_sub());
                } else if i == 1 {
                    assert(ts[i] == m.subject);
                } else {
                    assert(ts[i] == sid_tok);
                }
            }
            assert forall|i: int| 0 <= i < ts.len() implies no_cr_lf(#[trigger] ts[i]) by {
                if i == 0 {
                    assert(ts[i] == kw_sub());
                } else if i == 1 {
                    assert(ts[i] == m.subject);
                } else {
                    assert(ts[i] == sid_tok);
                }
            }
        },
        Some(qg) => {
            assert(ts =~= seq![kw_sub(), m.subject, qg, sid_tok]);
            assert forall|i: int| 0 <= i < ts.len() implies token_wf(#[trigger] ts[i]) by {
                if i == 0 {
                    assert(ts[i] == kw_sub());
                } else if i == 1 {
                    assert(ts[i] == m.subject);
                } else if i == 2 {
                    assert(ts[i] == qg);
                } else {
                    assert(ts[i] == sid_tok);
                }
            }
            assert forall|i: int| 0 <= i < ts.len() implies no_cr_lf(#[trigger] ts[i]) by {
                if i == 0 {
                    assert(ts[i] == kw_sub());
                } else if i == 1 {
                    assert(ts[i] == m.subject);
                } else if i == 2 {
                    assert(ts[i] == qg);
                } else {
                    assert(ts[i] == sid_tok);
                }
            }
        },
    }
    assert(tokens_wf(ts));
    lemma_tokenize_join(ts);
    lemma_join_no_cr_lf(ts);
    let line = join_tokens(ts);
    let s = render_subscribe(m);
    assert(s[s.len() - 2] == '\r' && s[s.len() - 1] == '\n') by {
        assert((line + crlf())[line.len() as int] == crlf()[0]);
        assert((line + crlf())[line.len() as int + 1] == crlf()[1]);
    }
    assert(strip_crlf(s) =~= line);
    assert(sub_message_spec(s) == Ok::<SubscribeModel, Seq<char>>(m));
}

/// Rendering an unsubscribe line and parsing it back returns it
/// unchanged.
pub proof fn lemma_roundtrip_unsubscribe(m: UnsubscribeModel)
    ensures
        unsub_message_spec(render_unsubscribe(m)) == Ok::<UnsubscribeModel, Seq<char>>(m),
{
    lemma_keyword_fields();
    let ts = unsub_tokens_of(m);
    let sid_tok = dec_str(m.subscription_id as nat);
    lemma_dec_str(m.subscription_id as nat);
    lemma_dec_str_field(m.subscription_id as nat);
    match m.max_messages {
        None => {
            assert(ts =~= seq![kw_unsub(), sid_tok]);
            assert forall|i: int| 0 <= i < ts.len() implies token_wf(#[trigger] ts[i]) && no_cr_lf(
                #[trigger] ts[i],
            ) by {
                if i == 0 {
                    assert(ts[i] == kw_unsub());
                } else {
                    assert(ts[i] == sid_tok);
                }
            }
        },
        Some(mm) => {
            let mm_tok = dec_str(mm as nat);
            lemma_dec_str(mm as nat);
            lemma_dec_str_field(mm as nat);
            assert(ts =~= seq![kw_unsub(), sid_tok, mm_tok]);
            assert forall|i: int| 0 <= i < ts.len() implies token_wf(#[trigger] ts[i]) && no_cr_lf(
                #[trigger] ts[i],
            ) by {
                if i == 0 {
                    assert(ts[i] == kw_unsub());
                } else if i == 1 {
                    assert(ts[i] == sid_tok);
                } else {
                    assert(ts[i] == mm_tok);
                }
            }
        },
    }
    assert(tokens_wf(ts));
    lemma_tokenize_join(ts);
    lemma_join_no_cr_lf(ts);
    let line = join_tokens(ts);
    let s = render_unsubscribe(m);
    assert(s[s.len() - 2] == '\r' && s[s.len() - 1] == '\n') by {
        assert((line + crlf())[line.len() as int] == crlf()[0]);
        assert((line + crlf())[line.len() as int + 1] == crlf()[1]);
    }
    assert(strip_crlf(s) =~= line);
    assert(unsub_message_spec(s) == Ok::<UnsubscribeModel, Seq<char>>(m));
}

/// Rendering an error and parsing it back returns the text unchanged.
pub proof fn lemma_roundtrip_error(t: Seq<char>)
    requires
        error_text_wf(t),
    ensures
        err_header_spec(render_error(t)) == Some(t),
{
    let s = render_error(t);
    let pre = kw_err() + seq![' ', '\''] + t + seq!['\''];
    assert(s == pre + crlf());
    assert(starts_with(s, err_prefix())) by {
        assert forall|i: int| 0 <= i < 6 implies s[i] == err_prefix()[i] by {
            assert((kw_err() + seq![' ', '\''])[i] == err_prefix()[i]);
            assert((kw_err() + seq![' ', '\''] + t)[i] == (kw_err() + seq![' ', '\''])[i]);
            assert(pre[i] == (kw_err() + seq![' ', '\''] + t)[i]);
            assert(s[i] == pre[i]);
        }
    }
    let q = 6 + t.len() as int;
    assert(s[q] == '\'') by {
        assert(pre[q] == seq!['\''][0]);
        assert(s[q] == pre[q]);
    }
    assert forall|k: int| 6 <= k < q implies s[k] != '\'' by {
        assert((kw_err() + seq![' ', '\''] + t)[k] == t[k - 6]);
        assert(pre[k] == (kw_err() + seq![' ', '\''] + t)[k]);
        assert(s[k] == pre[k]);
    }
    lemma_find_char_exact(s, 6, q, '\'');
    assert(s.subrange(6, q) =~= t);
}

} // verus!

verus! {

use crate::{no_crlf_pair, payload_wf, DeliveredModel, PublishModel};

/// The framer splits a rendered two-line frame exactly where rendering
/// joined it: the header line before the first CRLF, the payload bytes
/// after it.
proof fn lemma_split_render_frame(line: Seq<char>, payload: Seq<u8>)
    requires
        no_cr_lf(line),
        payload_wf(payload),
    ensures
        split_spec(line + crlf() + payload_str_spec(payload) + crlf()) == Some(
            (line, payload),
        ),
{
    let p = payload_str_spec(payload);
    let s = line + crlf() + p + crlf();
    let jl = line.len() as int;
    let pl = p.len() as int;
    assert(s[jl] == '\r') by {
        assert((line + crlf())[jl] == crlf()[0]);
        assert(s[jl] == (line + crlf())[jl]);
    }
    assert(s[jl + 1] == '\n') by {
        assert((line + crlf())[jl + 1] == crlf()[1]);
        assert(s[jl + 1] == (line + crlf())[jl + 1]);
    }
    assert forall|k: int| 0 <= k < jl implies !(#[trigger] s[k] == '\r' && s[k + 1] == '\n') by {
        assert(s[k] == line[k]);
    }
    lemma_find_crlf_exact(s, 0, jl);
    assert(s.take(jl) =~= line);
    let rest = s.skip(jl + 2);
    assert(rest =~= p + crlf());
    assert(rest[pl] == '\r') by {
        assert(rest[pl] == crlf()[0]);
    }
    assert(rest[pl + 1] == '\n') by {
        assert(rest[pl + 1] == crlf()[1]);
    }
    assert(no_crlf_pair(p));
    assert forall|k: int| 0 <= k < pl implies !(#[trigger] rest[k] == '\r' && rest[k + 1]
        == '\n') by {
        assert(rest[k] == p[k]);
        if k + 1 < pl {
            assert(rest[k + 1] == p[k + 1]);
        } else {
            assert(rest[k + 1] == crlf()[0]);
        }
    }
    lemma_find_crlf_exact(rest, 0, pl);
    assert(rest.take(pl) =~= p);
    decode_utf8_encode_utf8(payload);
    assert(split_spec(s) == Some((line, payload)));
}

/// Rendering a publish frame and parsing it back returns it unchanged.
pub proof fn lemma_roundtrip_publish(m: PublishModel)
    requires
        m.wf(),
    ensures
        pub_message_spec(render_publish(m)) == Ok::<PublishModel, Seq<char>>(m),
{
    lemma_keyword_fields();
    let ts = pub_tokens_of(m);
    let size_tok = dec_str(m.payload_size as nat);
    lemma_dec_str(m.payload_size as nat);
    lemma_dec_str_field(m.payload_size as nat);
    match m.reply_to {
        None => {
            assert(ts =~= seq![kw_pub(), m.subject, size_tok]);
            assert forall|i: int| 0 <= i < ts.len() implies token_wf(#[trigger] ts[i]) && no_cr_lf(
                #[trigger] ts[i],
            ) by {
                if i == 0 {
                    assert(ts[i] == kw_pub());
                } else if i == 1 {
                    assert(ts[i] == m.subject);
                } else {
                    assert(ts[i] == size_tok);
                }
            }
        },
        Some(rt) => {
            assert(ts =~= seq![kw_pub(), m.subject, rt, size_tok]);
            assert forall|i: int| 0 <= i < ts.len() implies token_wf(#[trigger] ts[i]) && no_cr_lf(
                #[trigger] ts[i],
            ) by {
                if i == 0 {
                    assert(ts[i] == kw_pub());
                } else if i == 1 {
                    assert(ts[i] == m.subject);
                } else if i == 2 {
                    assert(ts[i] == rt);
                } else {
                    assert(ts[i] == size_tok);
                }
            }
        },
    }
    assert(tokens_wf(ts));
    lemma_tokenize_join(ts);
    lemma_join_no_cr_lf(ts);
    let line = join_tokens(ts);
    lemma_split_render_frame(line, m.payload);
    assert(render_publish(m) =~= line + crlf() + payload_str_spec(m.payload) + crlf());
    assert(strip_crlf(line) == line) by {
        if line.len() >= 2 && line[line.len() - 2] == '\r' && line[line.len() - 1] == '\n' {
            assert(false);
        }
    }
    assert(pub_message_spec(render_publish(m)) == Ok::<PublishModel, Seq<char>>(m));
}

/// Rendering a delivered-message frame and parsing it back returns it
/// unchanged.
pub proof fn lemma_roundtrip_delivered(m: DeliveredModel)
    requires
        m.wf(),
    ensures
        msg_message_spec(render_delivered(m)) == Ok::<DeliveredModel, Seq<char>>(m),
{
    lemma_keyword_fields();
    let ts = msg_tokens_of(m);
    let size_tok = dec_str(m.payload_size as nat);
    let sid_tok = dec_str(m.subscription_id as nat);
    lemma_dec_str(m.payload_size as nat);
    lemma_dec_str_field(m.payload_size as nat);
    lemma_dec_str(m.subscription_id as nat);
    lemma_dec_str_field(m.subscription_id as nat);
    match m.reply_to {
        None => {
            assert(ts =~= seq![kw_msg(), m.subject, sid_tok, size_tok]);
            assert forall|i: int| 0 <= i < ts.len() implies token_wf(#[trigger] ts[i]) && no_cr_lf(
                #[trigger] ts[i],
            ) by {
                if i == 0 {
                    assert(ts[i] == kw_msg());
                } else if i == 1 {
                    assert(ts[i] == m.subject);
                } else if i == 2 {
                    assert(ts[i] == sid_tok);
                } else {
                    assert(ts[i] == size_tok);
                }
            }
        },
        Some(rt) => {
            assert(ts =~= seq![kw_msg(), m.subject, sid_tok, rt, size_tok]);
            assert forall|i: int| 0 <= i < ts.len() implies token_wf(#[trigger] ts[i]) && no_cr_lf(
                #[trigger] ts[i],
            ) by {
                if i == 0 {
                    assert(ts[i] == kw_msg());
                } else if i == 1 {
                    assert(ts[i] == m.subject);
                } else if i == 2 {
                    assert(ts[i] == sid_tok);
                } else if i == 3 {
                    assert(ts[i] == rt);
                } else {
                    assert(ts[i] == size_tok);
                }
            }
        },
    }
    assert(tokens_wf(ts));
    lemma_tokenize_join(ts);
    lemma_join_no_cr_lf(ts);
    let line = join_tokens(ts);
    lemma_split_render_frame(line, m.payload);
    assert(render_delivered(m) =~= line + crlf() + payload_str_spec(m.payload) + crlf());
    assert(strip_crlf(line) == line) by {
        if line.len() >= 2 && line[line.len() - 2] == '\r' && line[line.len() - 1] == '\n' {
            assert(false);
        }
    }
    assert(msg_message_spec(render_delivered(m)) == Ok::<DeliveredModel, Seq<char>>(m));
}

} // verus!

verus! {

use crate::protocol_parse_spec;

/// Round-trip: for every well-formed message of every variant except the
/// two structured-payload kinds, parsing the canonical rendering returns
/// exactly the message. The two JSON kinds go through the outside JSON
/// codec, whose behaviour is not modelled here.
#[verifier::rlimit(100)]
pub proof fn lemma_parse_render_roundtrip(m: MessageModel)
    requires
        m.wf(),
        !(m is Info),
        !(m is Connect),
    ensures
        protocol_parse_spec(render_spec(m)) == Some(Ok::<MessageModel, Seq<char>>(m)),
{
    let s = render_spec(m);
    match m {
        MessageModel::Unsubscribe(u) => {
            let ts = unsub_tokens_of(u);
            assert(ts.len() > 0 && ts[0] == kw_unsub()) by {
                if u.max_messages is Some {
                } else {
                }
            }
            lemma_join_starts_with_first(ts);
            lemma_starts_with_extend(join_tokens(ts), crlf(), kw_unsub());
            assert(starts_with(s, kw_unsub()));
            lemma_roundtrip_unsubscribe(u);
        },
        MessageModel::Publish(p) => {
            let ts = pub_tokens_of(p);
            assert(ts.len() > 0 && ts[0] == kw_pub()) by {
                if p.reply_to is Some {
                } else {
                }
            }
            lemma_join_starts_with_first(ts);
            let line = join_tokens(ts);
            lemma_starts_with_extend(line, crlf(), kw_pub());
            lemma_starts_with_extend(line + crlf(), payload_str_spec(p.payload), kw_pub());
            lemma_starts_with_extend(
                line + crlf() + payload_str_spec(p.payload),
                crlf(),
                kw_pub(),
            );
            assert(starts_with(s, kw_pub()));
            assert(s[0] == 'P') by {
                assert(s[0] == kw_pub()[0]);
            }
            assert(!starts_with(s, kw_unsub())) by {
                if starts_with(s, kw_unsub()) {
                    assert(s[0] == kw_unsub()[0]);
                }
            }
            lemma_roundtrip_publish(p);
        },
        MessageModel::Message(d) => {
            let ts = msg_tokens_of(d);
            assert(ts.len() > 0 && ts[0] == kw_msg()) by {
                if d.reply_to is Some {
                } else {
                }
            }
            lemma_join_starts_with_first(ts);
            let line = join_tokens(ts);
            lemma_starts_with_extend(line, crlf(), kw_msg());
            lemma_starts_with_extend(line + crlf(), payload_str_spec(d.payload), kw_msg());
            lemma_starts_with_extend(
                line + crlf() + payload_str_spec(d.payload),
                crlf(),
                kw_msg(),
            );
            assert(starts_with(s, kw_msg()));
            assert(s[0] == 'M') by {
                assert(s[0] == kw_msg()[0]);
            }
            assert(!starts_with(s, kw_unsub())) by {
                if starts_with(s, kw_unsub()) {
                    assert(s[0] == kw_unsub()[0]);
                }
            }
            assert(!starts_with(s, kw_pub())) by {
                if starts_with(s, kw_pub()) {
                    assert(s[0] == kw_pub()[0]);
                }
            }
            lemma_roundtrip_delivered(d);
        },
        MessageModel::Subscribe(sb) => {
            let ts = sub_tokens_of(sb);
            assert(ts.len() > 0 && ts[0] == kw_sub()) by {
                if sb.queue_group is Some {
                } else {
                }
            }
            lemma_join_starts_with_first(ts);
            let line = join_tokens(ts);
            lemma_starts_with_extend(line, crlf(), kw_sub());
            assert(starts_with(s, kw_sub()));
            assert(s[0] == 'S') by {
                assert(s[0] == kw_sub()[0]);
            }
            assert(!starts_with(s, kw_unsub())) by {
                if starts_with(s, kw_unsub()) {
                    assert(s[0] == kw_unsub()[0]);
                }
            }
            assert(!starts_with(s, kw_pub())) by {
                if starts_with(s, kw_pub()) {
                    assert(s[0] == kw_pub()[0]);
                }
            }
            assert(!starts_with(s, kw_msg())) by {
                if starts_with(s, kw_msg()) {
                    assert(s[0] == kw_msg()[0]);
                }
            }
            lemma_roundtrip_subscribe(sb);
        },
        MessageModel::Ping => {
            assert(s =~= kw_ping() + crlf());
            assert(starts_with(s, kw_ping())) by {
                assert forall|i: int| 0 <= i < 4 implies s[i] == kw_ping()[i] by {
                    assert((kw_ping() + crlf())[i] == kw_ping()[i]);
                }
            }
            assert(s[0] == 'P' && s[1] == 'I') by {
                assert(s[0] == kw_ping()[0]);
                assert(s[1] == kw_ping()[1]);
            }
            assert(!starts_with(s, kw_unsub())) by {
                if starts_with(s, kw_unsub()) {
                    assert(s[0] == kw_unsub()[0]);
                }
            }
            assert(!starts_with(s, kw_pub())) by {
                if starts_with(s, kw_pub()) {
                    assert(s[1] == kw_pub()[1]);
                }
            }
            assert(!starts_with(s, kw_msg())) by {
                if starts_with(s, kw_msg()) {
                    assert(s[0] == kw_msg()[0]);
                }
            }
            assert(!starts_with(s, kw_sub())) by {
                if starts_with(s, kw_sub()) {
                    assert(s[0] == kw_sub()[0]);
                }
            }
        },
        MessageModel::Pong => {
            assert(s =~= kw_pong() + crlf());
            assert(starts_with(s, kw_pong())) by {
                assert forall|i: int| 0 <= i < 4 implies s[i] == kw_pong()[i] by {
                    assert((kw_pong() + crlf())[i] == kw_pong()[i]);
                }
            }
            assert(s[0] == 'P' && s[1] == 'O') by {
                assert(s[0] == kw_pong()[0]);
                assert(s[1] == kw_pong()[1]);
            }
            assert(!starts_with(s, kw_unsub())) by {
                if starts_with(s, kw_unsub()) {
                    assert(s[0] == kw_unsub()[0]);
                }
            }
            assert(!starts_with(s, kw_pub())) by {
                if starts_with(s, kw_pub()) {
                    assert(s[1] == kw_pub()[1]);
                }
            }
            assert(!starts_with(s, kw_msg())) by {
                if starts_with(s, kw_msg()) {
                    assert(s[0] == kw_msg()[0]);
                }
            }
            assert(!starts_with(s, kw_sub())) by {
                if starts_with(s, kw_sub()) {
                    assert(s[0] == kw_sub()[0]);
                }
            }
            assert(!starts_with(s, kw_ping())) by {
                if starts_with(s, kw_ping()) {
                    assert(s[1] == kw_ping()[1]);
                }
            }
        },
        MessageModel::Okay => {
            assert(s =~= kw_ok() + crlf());
            assert(starts_with(s, kw_ok())) by {
                assert forall|i: int| 0 <= i < 3 implies s[i] == kw_ok()[i] by {
                    assert((kw_ok() + crlf())[i] == kw_ok()[i]);
                }
            }
            assert(s[0] == '+') by {
                assert(s[0] == kw_ok()[0]);
            }
            assert(!starts_with(s, kw_unsub())) by {
                if starts_with(s, kw_unsub()) {
                    assert(s[0] == kw_unsub()[0]);
                }
            }
            assert(!starts_with(s, kw_pub())) by {
                if starts_with(s, kw_pub()) {
                    assert(s[0] == kw_pub()[0]);
                }
            }
            assert(!starts_with(s, kw_msg())) by {
                if starts_with(s, kw_msg()) {
                    assert(s[0] == kw_msg()[0]);
                }
            }
            assert(!starts_with(s, kw_sub())) by {
                if starts_with(s, kw_sub()) {
                    assert(s[0] == kw_sub()[0]);
                }
            }
            assert(!starts_with(s, kw_ping())) by {
                if starts_with(s, kw_ping()) {
                    assert(s[0] == kw_ping()[0]);
                }
            }
            assert(!starts_with(s, kw_pong())) by {
                if starts_with(s, kw_pong()) {
                    assert(s[0] == kw_pong()[0]);
                }
            }
        },
        MessageModel::Error(t) => {
            assert(starts_with(kw_err() + seq![' ', '\''], kw_err())) by {
                assert forall|i: int| 0 <= i < 4 implies (kw_err() + seq![' ', '\''])[i]
                    == kw_err()[i] by {}
            }
            lemma_starts_with_extend(kw_err() + seq![' ', '\''], t, kw_err());
            lemma_starts_with_extend(kw_err() + seq![' ', '\''] + t, seq!['\''], kw_err());
            lemma_starts_with_extend(
                kw_err() + seq![' ', '\''] + t + seq!['\''],
                crlf(),
                kw_err(),
            );
            assert(starts_with(s, kw_err()));
            assert(s[0] == '-') by {
                assert(s[0] == kw_err()[0]);
            }
            assert(!starts_with(s, kw_unsub())) by {
                if starts_with(s, kw_unsub()) {
                    assert(s[0] == kw_unsub()[0]);
                }
            }
            assert(!starts_with(s, kw_pub())) by {
                if starts_with(s, kw_pub()) {
                    assert(s[0] == kw_pub()[0]);
                }
            }
            assert(!starts_with(s, kw_msg())) by {
                if starts_with(s, kw_msg()) {
                    assert(s[0] == kw_msg()[0]);
                }
            }
            assert(!starts_with(s, kw_sub())) by {
                if starts_with(s, kw_sub()) {
                    assert(s[0] == kw_sub()[0]);
                }
            }
            assert(!starts_with(s, kw_ping())) by {
                if starts_with(s, kw_ping()) {
                    assert(s[0] == kw_ping()[0]);
                }
            }
            assert(!starts_with(s, kw_pong())) by {
                if starts_with(s, kw_pong()) {
                    assert(s[0] == kw_pong()[0]);
                }
            }
            assert(!starts_with(s, kw_ok())) by {
                if starts_with(s, kw_ok()) {
                    assert(s[0] == kw_ok()[0]);
                }
            }
            lemma_roundtrip_error(t);
        },
        _ => {},
    }
}

} // verus!

verus! {

use crate::json::{
    connect_fields_spec, connect_pairs, info_fields_spec, info_pairs, opt_str_array_field,
    opt_string_field, opt_u64_field, opt_usize_field, JsonField,
};
use crate::text::lemma_tokenize_tokens_wf;
use crate::{ConnectionInformationModel, ServerInformationModel};

/// Whitespace tolerance: header grammars read a line only through its
/// tokens, so two lines with equal fields parse alike however wide each
/// separator run is.
pub proof fn lemma_whitespace_tolerance(a: Seq<char>, b: Seq<char>)
    requires
        tokenize(strip_crlf(a)) == tokenize(strip_crlf(b)),
        no_cr_lf(strip_crlf(a)),
        no_cr_lf(strip_crlf(b)),
    ensures
        pub_header_spec(a) == pub_header_spec(b),
        sub_header_spec(a) == sub_header_spec(b),
        unsub_header_spec(a) == unsub_header_spec(b),
        msg_header_spec(a) == msg_header_spec(b),
{
}

/// A corollary in canonical form: any line parses exactly as the line
/// rebuilt from its own tokens with single spaces.
pub proof fn lemma_whitespace_canonical(line: Seq<char>)
    requires
        no_cr_lf(line),
    ensures
        pub_header_spec(join_tokens(tokenize(line))) == pub_header_spec(line),
        sub_header_spec(join_tokens(tokenize(line))) == sub_header_spec(line),
        unsub_header_spec(join_tokens(tokenize(line))) == unsub_header_spec(line),
        msg_header_spec(join_tokens(tokenize(line))) == msg_header_spec(line),
{
    let ts = tokenize(line);
    lemma_tokenize_tokens_wf(line);
    lemma_tokenize_join(ts);
    let canon = join_tokens(ts);
    assert(no_cr_lf(canon)) by {
        assert forall|i: int| 0 <= i < ts.len() implies no_cr_lf(#[trigger] ts[i]) by {
            assert(token_wf(ts[i]));
            assert forall|k: int| 0 <= k < ts[i].len() implies ts[i][k] != '\r' && ts[i][k]
                != '\n' by {
                lemma_tokenize_token_chars(line, i, k);
            }
        }
        lemma_join_no_cr_lf(ts);
    }
    assert(strip_crlf(canon) == canon) by {
        if canon.len() >= 2 && canon[canon.len() - 2] == '\r' && canon[canon.len() - 1] == '\n' {
            assert(false);
        }
    }
    assert(strip_crlf(line) == line) by {
        if line.len() >= 2 && line[line.len() - 2] == '\r' && line[line.len() - 1] == '\n' {
            assert(false);
        }
    }
    lemma_whitespace_tolerance(canon, line);
}

/// Every character of every token of a line appears in the line itself.
proof fn lemma_tokenize_token_chars(s: Seq<char>, i: int, k: int)
    requires
        0 <= i < tokenize(s).len(),
        0 <= k < tokenize(s)[i].len(),
        no_cr_lf(s),
    ensures
        tokenize(s)[i][k] != '\r' && tokenize(s)[i][k] != '\n',
    decreases s.len(),
{
    if s.len() == 0 {
    } else if is_sep(s[0]) {
        assert forall|j: int| 0 <= j < s.drop_first().len() implies s.drop_first()[j] != '\r'
            && s.drop_first()[j] != '\n' by {
            assert(s.drop_first()[j] == s[j + 1]);
        }
        lemma_tokenize_token_chars(s.drop_first(), i, k);
    } else {
        crate::text::lemma_token_len_bounds(s);
        let tl = crate::text::token_len(s) as int;
        let head = s.take(tl);
        let rest = s.skip(tl);
        if i == 0 {
            assert(tokenize(s)[0] == head);
            assert(head[k] == s[k]);
        } else {
            assert(tokenize(s)[i] == tokenize(rest)[i - 1]);
            assert forall|j: int| 0 <= j < rest.len() implies rest[j] != '\r' && rest[j]
                != '\n' by {
                assert(rest[j] == s[j + tl]);
            }
            lemma_tokenize_token_chars(rest, i - 1, k);
        }
    }
}

} // verus!

verus! {

/// Canonical output: whatever separators the input carried, a rendered
/// header line is exactly its fields joined by single spaces — so
/// tokenizing it recovers the fields — and every message kind ends with
/// one CRLF.
pub proof fn lemma_render_canonical(m: MessageModel)
    requires
        m.wf(),
    ensures
        m is Publish ==> render_spec(m) == join_tokens(pub_tokens_of(m->Publish_0)) + crlf()
            + payload_str_spec(m->Publish_0.payload) + crlf() && tokenize(
            join_tokens(pub_tokens_of(m->Publish_0)),
        ) == pub_tokens_of(m->Publish_0),
        m is Message ==> render_spec(m) == join_tokens(msg_tokens_of(m->Message_0)) + crlf()
            + payload_str_spec(m->Message_0.payload) + crlf() && tokenize(
            join_tokens(msg_tokens_of(m->Message_0)),
        ) == msg_tokens_of(m->Message_0),
        m is Subscribe ==> render_spec(m) == join_tokens(sub_tokens_of(m->Subscribe_0)) + crlf()
            && tokenize(join_tokens(sub_tokens_of(m->Subscribe_0))) == sub_tokens_of(
            m->Subscribe_0,
        ),
        m is Unsubscribe ==> render_spec(m) == join_tokens(unsub_tokens_of(m->Unsubscribe_0))
            + crlf() && tokenize(join_tokens(unsub_tokens_of(m->Unsubscribe_0)))
            == unsub_tokens_of(m->Unsubscribe_0),
        render_spec(m).len() >= 2 && render_spec(m)[render_spec(m).len() - 2] == '\r'
            && render_spec(m)[render_spec(m).len() - 1] == '\n',
{
    let s = render_spec(m);
    match m {
        MessageModel::Publish(p) => {
            lemma_tokens_fields_publish(p);
            lemma_tokenize_join(pub_tokens_of(p));
            assert(s[s.len() - 2] == '\r' && s[s.len() - 1] == '\n') by {
                let pre = join_tokens(pub_tokens_of(p)) + crlf() + payload_str_spec(p.payload);
                assert(s =~= pre + crlf());
                assert((pre + crlf())[pre.len() as int] == crlf()[0]);
                assert((pre + crlf())[pre.len() as int + 1] == crlf()[1]);
            }
        },
        MessageModel::Message(d) => {
            lemma_tokens_fields_delivered(d);
            lemma_tokenize_join(msg_tokens_of(d));
            assert(s[s.len() - 2] == '\r' && s[s.len() - 1] == '\n') by {
                let pre = join_tokens(msg_tokens_of(d)) + crlf() + payload_str_spec(d.payload);
                assert(s =~= pre + crlf());
                assert((pre + crlf())[pre.len() as int] == crlf()[0]);
                assert((pre + crlf())[pre.len() as int + 1] == crlf()[1]);
            }
        },
        MessageModel::Subscribe(sb) => {
            lemma_tokens_fields_subscribe(sb);
            lemma_tokenize_join(sub_tokens_of(sb));
            assert(s[s.len() - 2] == '\r' && s[s.len() - 1] == '\n') by {
                let pre = join_tokens(sub_tokens_of(sb));
                assert((pre + crlf())[pre.len() as int] == crlf()[0]);
                assert((pre + crlf())[pre.len() as int + 1] == crlf()[1]);
            }
        },
        MessageModel::Unsubscribe(u) => {
            lemma_tokens_fields_unsubscribe(u);
            lemma_tokenize_join(unsub_tokens_of(u));
            assert(s[s.len() - 2] == '\r' && s[s.len() - 1] == '\n') by {
                let pre = join_tokens(unsub_tokens_of(u));
                assert((pre + crlf())[pre.len() as int] == crlf()[0]);
                assert((pre + crlf())[pre.len() as int + 1] == crlf()[1]);
            }
        },
        MessageModel::Ping => {
            assert(s[s.len() - 2] == '\r' && s[s.len() - 1] == '\n') by {
                assert((kw_ping() + crlf())[4] == crlf()[0]);
                assert((kw_ping() + crlf())[5] == crlf()[1]);
            }
        },
        MessageModel::Pong => {
            assert(s[s.len() - 2] == '\r' && s[s.len() - 1] == '\n') by {
                assert((kw_pong() + crlf())[4] == crlf()[0]);
                assert((kw_pong() + crlf())[5] == crlf()[1]);
            }
        },
        MessageModel::Okay => {
            assert(s[s.len() - 2] == '\r' && s[s.len() - 1] == '\n') by {
                assert((kw_ok() + crlf())[3] == crlf()[0]);
                assert((kw_ok() + crlf())[4] == crlf()[1]);
            }
        },
        MessageModel::Error(t) => {
            assert(s[s.len() - 2] == '\r' && s[s.len() - 1] == '\n') by {
                let pre = kw_err() + seq![' ', '\''] + t + seq!['\''];
                assert(s =~= pre + crlf());
                assert((pre + crlf())[pre.len() as int] == crlf()[0]);
                assert((pre + crlf())[pre.len() as int + 1] == crlf()[1]);
            }
        },
        MessageModel::Info(i) => {
            assert(s[s.len() - 2] == '\r' && s[s.len() - 1] == '\n') by {
                let pre = kw_info() + sp() + crate::json::info_json(i);
                assert(s =~= pre + crlf());
                assert((pre + crlf())[pre.len() as int] == crlf()[0]);
                assert((pre + crlf())[pre.len() as int + 1] == crlf()[1]);
            }
        },
        MessageModel::Connect(c) => {
            assert(s[s.len() - 2] == '\r' && s[s.len() - 1] == '\n') by {
                let pre = kw_connect() + sp() + crate::json::connect_json(c);
                assert(s =~= pre + crlf());
                assert((pre + crlf())[pre.len() as int] == crlf()[0]);
                assert((pre + crlf())[pre.len() as int + 1] == crlf()[1]);
            }
        },
    }
}

proof fn lemma_tokens_fields_publish(p: PublishModel)
    requires
        p.wf(),
    ensures
        tokens_wf(pub_tokens_of(p)),
{
    lemma_keyword_fields();
    lemma_dec_str_field(p.payload_size as nat);
    let ts = pub_tokens_of(p);
    assert forall|i: int| 0 <= i < ts.len() implies token_wf(#[trigger] ts[i]) by {
        if p.reply_to is Some {
            assert(ts =~= seq![
                kw_pub(),
                p.subject,
                p.reply_to->0,
                dec_str(p.payload_size as nat),
            ]);
        } else {
            assert(ts =~= seq![kw_pub(), p.subject, dec_str(p.payload_size as nat)]);
        }
    }
}

proof fn lemma_tokens_fields_delivered(d: DeliveredModel)
    requires
        d.wf(),
    ensures
        tokens_wf(msg_tokens_of(d)),
{
    lemma_keyword_fields();
    lemma_dec_str_field(d.payload_size as nat);
    lemma_dec_str_field(d.subscription_id as nat);
    let ts = msg_tokens_of(d);
    assert forall|i: int| 0 <= i < ts.len() implies token_wf(#[trigger] ts[i]) by {
        if d.reply_to is Some {
            assert(ts =~= seq![
                kw_msg(),
                d.subject,
                dec_str(d.subscription_id as nat),
                d.reply_to->0,
                dec_str(d.payload_size as nat),
            ]);
        } else {
            assert(ts =~= seq![
                kw_msg(),
                d.subject,
                dec_str(d.subscription_id as nat),
                dec_str(d.payload_size as nat),
            ]);
        }
    }
}

proof fn lemma_tokens_fields_subscribe(sb: SubscribeModel)
    requires
        sb.wf(),
    ensures
        tokens_wf(sub_tokens_of(sb)),
{
    lemma_keyword_fields();
    lemma_dec_str_field(sb.subscription_id as nat);
    let ts = sub_tokens_of(sb);
    assert forall|i: int| 0 <= i < ts.len() implies token_wf(#[trigger] ts[i]) by {
        if sb.queue_group is Some {
            assert(ts =~= seq![
                kw_sub(),
                sb.subject,
                sb.queue_group->0,
                dec_str(sb.subscription_id as nat),
            ]);
        } else {
            assert(ts =~= seq![kw_sub(), sb.subject, dec_str(sb.subscription_id as nat)]);
        }
    }
}

proof fn lemma_tokens_fields_unsubscribe(u: UnsubscribeModel)
    ensures
        tokens_wf(unsub_tokens_of(u)),
{
    lemma_keyword_fields();
    lemma_dec_str_field(u.subscription_id as nat);
    let ts = unsub_tokens_of(u);
    assert forall|i: int| 0 <= i < ts.len() implies token_wf(#[trigger] ts[i]) by {
        if u.max_messages is Some {
            lemma_dec_str_field(u.max_messages->0 as nat);
            assert(ts =~= seq![
                kw_unsub(),
                dec_str(u.subscription_id as nat),
                dec_str(u.max_messages->0 as nat),
            ]);
        } else {
            assert(ts =~= seq![kw_unsub(), dec_str(u.subscription_id as nat)]);
        }
    }
}

} // verus!

verus! {

use crate::json::{opt_arr_pairs, opt_str_pairs, opt_u64_pairs, opt_usize_pairs};

proof fn lemma_connect_keys_distinct()
    ensures
        "verbose"@ != "auth_token"@,
        "verbose"@ != "user"@,
        "verbose"@ != "pass"@,
        "verbose"@ != "protocol"@,
        "verbose"@ != "sig"@,
        "verbose"@ != "jwt"@,
        "pedantic"@ != "auth_token"@,
        "pedantic"@ != "user"@,
        "pedantic"@ != "pass"@,
        "pedantic"@ != "protocol"@,
        "pedantic"@ != "sig"@,
        "pedantic"@ != "jwt"@,
        "tls_required"@ != "auth_token"@,
        "tls_required"@ != "user"@,
        "tls_required"@ != "pass"@,
        "tls_required"@ != "protocol"@,
        "tls_required"@ != "sig"@,
        "tls_required"@ != "jwt"@,
        "lang"@ != "auth_token"@,
        "lang"@ != "user"@,
        "lang"@ != "pass"@,
        "lang"@ != "protocol"@,
        "lang"@ != "sig"@,
        "lang"@ != "jwt"@,
        "name"@ != "auth_token"@,
        "name"@ != "user"@,
        "name"@ != "pass"@,
        "name"@ != "protocol"@,
        "name"@ != "sig"@,
        "name"@ != "jwt"@,
        "version"@ != "auth_token"@,
        "version"@ != "user"@,
        "version"@ != "pass"@,
        "version"@ != "protocol"@,
        "version"@ != "sig"@,
        "version"@ != "jwt"@,
        "auth_token"@ != "user"@,
        "auth_token"@ != "pass"@,
        "auth_token"@ != "protocol"@,
        "auth_token"@ != "sig"@,
        "auth_token"@ != "jwt"@,
        "user"@ != "auth_token"@,
        "user"@ != "pass"@,
        "user"@ != "protocol"@,
        "user"@ != "sig"@,
        "user"@ != "jwt"@,
        "pass"@ != "auth_token"@,
        "pass"@ != "user"@,
        "pass"@ != "protocol"@,
        "pass"@ != "sig"@,
        "pass"@ != "jwt"@,
        "protocol"@ != "auth_token"@,
        "protocol"@ != "user"@,
        "protocol"@ != "pass"@,
        "protocol"@ != "sig"@,
        "protocol"@ != "jwt"@,
        "sig"@ != "auth_token"@,
        "sig"@ != "user"@,
        "sig"@ != "pass"@,
        "sig"@ != "protocol"@,
        "sig"@ != "jwt"@,
        "jwt"@ != "auth_token"@,
        "jwt"@ != "user"@,
        "jwt"@ != "pass"@,
        "jwt"@ != "protocol"@,
        "jwt"@ != "sig"@,
{
    reveal_strlit("verbose");
    reveal_strlit("pedantic");
    reveal_strlit("tls_required");
    reveal_strlit("lang");
    reveal_strlit("name");
    reveal_strlit("version");
    reveal_strlit("auth_token");
    reveal_strlit("user");
    reveal_strlit("pass");
    reveal_strlit("protocol");
    reveal_strlit("sig");
    reveal_strlit("jwt");
    assert("verbose"@.len() == 7);
    assert("pedantic"@.len() == 8);
    assert("tls_required"@.len() == 12);
    assert("lang"@.len() == 4);
    assert("name"@.len() == 4);
    assert("version"@.len() == 7);
    assert("auth_token"@.len() == 10);
    assert("user"@.len() == 4);
    assert("pass"@.len() == 4);
    assert("protocol"@.len() == 8);
    assert("sig"@.len() == 3);
    assert("jwt"@.len() == 3);
    assert("verbose"@[0] == 'v');
    assert("pedantic"@[0] == 'p');
    assert("tls_required"@[0] == 't');
    assert("lang"@[0] == 'l');
    assert("name"@[0] == 'n');
    assert("version"@[0] == 'v');
    assert("auth_token"@[0] == 'a');
    assert("user"@[0] == 'u');
    assert("pass"@[0] == 'p');
    assert("protocol"@[0] == 'p');
    assert("sig"@[0] == 's');
    assert("jwt"@[0] == 'j');
    assert("pedantic"@[1] == 'e');
    assert("protocol"@[1] == 'r');
}

proof fn lemma_info_keys_distinct()
    ensures
        "server_id"@ != "proto"@,
        "server_id"@ != "client_id"@,
        "server_id"@ != "connect_urls"@,
        "server_id"@ != "nonce"@,
        "version"@ != "proto"@,
        "version"@ != "client_id"@,
        "version"@ != "connect_urls"@,
        "version"@ != "nonce"@,
        "go"@ != "proto"@,
        "go"@ != "client_id"@,
        "go"@ != "connect_urls"@,
        "go"@ != "nonce"@,
        "host"@ != "proto"@,
        "host"@ != "client_id"@,
        "host"@ != "connect_urls"@,
        "host"@ != "nonce"@,
        "port"@ != "proto"@,
        "port"@ != "client_id"@,
        "port"@ != "connect_urls"@,
        "port"@ != "nonce"@,
        "auth_required"@ != "proto"@,
        "auth_required"@ != "client_id"@,
        "auth_required"@ != "connect_urls"@,
        "auth_required"@ != "nonce"@,
        "tls_required"@ != "proto"@,
        "tls_required"@ != "client_id"@,
        "tls_required"@ != "connect_urls"@,
        "tls_required"@ != "nonce"@,
        "max_payload"@ != "proto"@,
        "max_payload"@ != "client_id"@,
        "max_payload"@ != "connect_urls"@,
        "max_payload"@ != "nonce"@,
        "proto"@ != "client_id"@,
        "proto"@ != "connect_urls"@,
        "proto"@ != "nonce"@,
        "client_id"@ != "proto"@,
        "client_id"@ != "connect_urls"@,
        "client_id"@ != "nonce"@,
        "connect_urls"@ != "proto"@,
        "connect_urls"@ != "client_id"@,
        "connect_urls"@ != "nonce"@,
        "nonce"@ != "proto"@,
        "nonce"@ != "client_id"@,
        "nonce"@ != "connect_urls"@,
{
    reveal_strlit("server_id");
    reveal_strlit("version");
    reveal_strlit("go");
    reveal_strlit("host");
    reveal_strlit("port");
    reveal_strlit("auth_required");
    reveal_strlit("tls_required");
    reveal_strlit("max_payload");
    reveal_strlit("proto");
    reveal_strlit("client_id");
    reveal_strlit("connect_urls");
    reveal_strlit("nonce");
    assert("server_id"@.len() == 9);
    assert("version"@.len() == 7);
    assert("go"@.len() == 2);
    assert("host"@.len() == 4);
    assert("port"@.len() == 4);
    assert("auth_required"@.len() == 13);
    assert("tls_required"@.len() == 12);
    assert("max_payload"@.len() == 11);
    assert("proto"@.len() == 5);
    assert("client_id"@.len() == 9);
    assert("connect_urls"@.len() == 12);
    assert("nonce"@.len() == 5);
    assert("server_id"@[0] == 's');
    assert("version"@[0] == 'v');
    assert("go"@[0] == 'g');
    assert("host"@[0] == 'h');
    assert("port"@[0] == 'p');
    assert("auth_required"@[0] == 'a');
    assert("tls_required"@[0] == 't');
    assert("max_payload"@[0] == 'm');
    assert("proto"@[0] == 'p');
    assert("client_id"@[0] == 'c');
    assert("connect_urls"@[0] == 'c');
    assert("nonce"@[0] == 'n');
}

/// For one member of a rendered CONNECT object: if its key names an
/// optional field, that field is present in the message.
pub open spec fn connect_member_justified(
    m: ConnectionInformationModel,
    p: (Seq<char>, Seq<char>),
) -> bool {
    &&& (p.0 == "auth_token"@ ==> m.auth_token is Some)
    &&& (p.0 == "user"@ ==> m.user is Some)
    &&& (p.0 == "pass"@ ==> m.pass is Some)
    &&& (p.0 == "protocol"@ ==> m.protocol is Some)
    &&& (p.0 == "sig"@ ==> m.sig is Some)
    &&& (p.0 == "jwt"@ ==> m.jwt is Some)
}

pub open spec fn connect_members_justified(
    m: ConnectionInformationModel,
    ps: Seq<(Seq<char>, Seq<char>)>,
) -> bool {
    forall|i: int| 0 <= i < ps.len() ==> connect_member_justified(m, #[trigger] ps[i])
}

proof fn lemma_connect_justified_concat(
    m: ConnectionInformationModel,
    a: Seq<(Seq<char>, Seq<char>)>,
    b: Seq<(Seq<char>, Seq<char>)>,
)
    requires
        connect_members_justified(m, a),
        connect_members_justified(m, b),
    ensures
        connect_members_justified(m, a + b),
{
    assert forall|i: int| 0 <= i < (a + b).len() implies connect_member_justified(
        m,
        #[trigger] (a + b)[i],
    ) by {
        if i < a.len() {
            assert((a + b)[i] == a[i]);
        } else {
            assert((a + b)[i] == b[i - a.len()]);
        }
    }
}

/// Optional-field omission, rendering side: the CONNECT object holds a
/// member under an optional field's key only when that field is present;
/// an absent field leaves no member at all.
#[verifier::rlimit(50)]
pub proof fn lemma_connect_omits_absent(m: ConnectionInformationModel)
    ensures
        connect_members_justified(m, connect_pairs(m)),
{
    reveal_strlit("verbose");
    reveal_strlit("pedantic");
    reveal_strlit("tls_required");
    reveal_strlit("auth_token");
    reveal_strlit("user");
    reveal_strlit("pass");
    reveal_strlit("lang");
    reveal_strlit("name");
    reveal_strlit("version");
    reveal_strlit("protocol");
    reveal_strlit("sig");
    reveal_strlit("jwt");
    let q1 = seq![("verbose"@, crate::json::json_bool_text(m.verbose))];
    let q2 = q1 + seq![("pedantic"@, crate::json::json_bool_text(m.pedantic))];
    let q3 = q2 + seq![("tls_required"@, crate::json::json_bool_text(m.tls_required))];
    let q4 = q3 + opt_str_pairs("auth_token"@, m.auth_token);
    let q5 = q4 + opt_str_pairs("user"@, m.user);
    let q6 = q5 + opt_str_pairs("pass"@, m.pass);
    let q7 = q6 + seq![("lang"@, crate::json::json_quote(m.lang))];
    let q8 = q7 + seq![("name"@, crate::json::json_quote(m.name))];
    let q9 = q8 + seq![("version"@, crate::json::json_quote(m.version))];
    let q10 = q9 + opt_u64_pairs("protocol"@, m.protocol);
    let q11 = q10 + opt_str_pairs("sig"@, m.sig);
    let q12 = q11 + opt_str_pairs("jwt"@, m.jwt);
    assert(connect_members_justified(m, q1)) by {
        lemma_connect_keys_distinct();
    }
    assert(connect_members_justified(m, seq![("pedantic"@, crate::json::json_bool_text(m.pedantic))])) by {
        lemma_connect_keys_distinct();
    }
    lemma_connect_justified_concat(m, q1, seq![("pedantic"@, crate::json::json_bool_text(m.pedantic))]);
    assert(connect_members_justified(m, seq![("tls_required"@, crate::json::json_bool_text(m.tls_required))])) by {
        lemma_connect_keys_distinct();
    }
    lemma_connect_justified_concat(m, q2, seq![("tls_required"@, crate::json::json_bool_text(m.tls_required))]);
    assert(connect_members_justified(m, opt_str_pairs("auth_token"@, m.auth_token))) by {
        lemma_connect_keys_distinct();
    }
    lemma_connect_justified_concat(m, q3, opt_str_pairs("auth_token"@, m.auth_token));
    assert(connect_members_justified(m, opt_str_pairs("user"@, m.user))) by {
        lemma_connect_keys_distinct();
    }
    lemma_connect_justified_concat(m, q4, opt_str_pairs("user"@, m.user));
    assert(connect_members_justified(m, opt_str_pairs("pass"@, m.pass))) by {
        lemma_connect_keys_distinct();
    }
    lemma_connect_justified_concat(m, q5, opt_str_pairs("pass"@, m.pass));
    assert(connect_members_justified(m, seq![("lang"@, crate::json::json_quote(m.lang))])) by {
        lemma_connect_keys_distinct();
    }
    lemma_connect_justified_concat(m, q6, seq![("lang"@, crate::json::json_quote(m.lang))]);
    assert(connect_members_justified(m, seq![("name"@, crate::json::json_quote(m.name))])) by {
        lemma_connect_keys_distinct();
    }
    lemma_connect_justified_concat(m, q7, seq![("name"@, crate::json::json_quote(m.name))]);
    assert(connect_members_justified(m, seq![("version"@, crate::json::json_quote(m.version))])) by {
        lemma_connect_keys_distinct();
    }
    lemma_connect_justified_concat(m, q8, seq![("version"@, crate::json::json_quote(m.version))]);
    assert(connect_members_justified(m, opt_u64_pairs("protocol"@, m.protocol))) by {
        lemma_connect_keys_distinct();
    }
    lemma_connect_justified_concat(m, q9, opt_u64_pairs("protocol"@, m.protocol));
    assert(connect_members_justified(m, opt_str_pairs("sig"@, m.sig))) by {
        lemma_connect_keys_distinct();
    }
    lemma_connect_justified_concat(m, q10, opt_str_pairs("sig"@, m.sig));
    assert(connect_members_justified(m, opt_str_pairs("jwt"@, m.jwt))) by {
        lemma_connect_keys_distinct();
    }
    lemma_connect_justified_concat(m, q11, opt_str_pairs("jwt"@, m.jwt));
    assert(connect_pairs(m) == q12);
}

/// As above for the INFO object.
pub open spec fn info_member_justified(
    m: ServerInformationModel,
    p: (Seq<char>, Seq<char>),
) -> bool {
    &&& (p.0 == "proto"@ ==> m.proto is Some)
    &&& (p.0 == "client_id"@ ==> m.client_id is Some)
    &&& (p.0 == "connect_urls"@ ==> m.connect_urls is Some)
    &&& (p.0 == "nonce"@ ==> m.nonce is Some)
}

pub open spec fn info_members_justified(
    m: ServerInformationModel,
    ps: Seq<(Seq<char>, Seq<char>)>,
) -> bool {
    forall|i: int| 0 <= i < ps.len() ==> info_member_justified(m, #[trigger] ps[i])
}

proof fn lemma_info_justified_concat(
    m: ServerInformationModel,
    a: Seq<(Seq<char>, Seq<char>)>,
    b: Seq<(Seq<char>, Seq<char>)>,
)
    requires
        info_members_justified(m, a),
        info_members_justified(m, b),
    ensures
        info_members_justified(m, a + b),
{
    assert forall|i: int| 0 <= i < (a + b).len() implies info_member_justified(
        m,
        #[trigger] (a + b)[i],
    ) by {
        if i < a.len() {
            assert((a + b)[i] == a[i]);
        } else {
            assert((a + b)[i] == b[i - a.len()]);
        }
    }
}

/// Optional-field omission for the INFO object.
#[verifier::rlimit(50)]
pub proof fn lemma_info_omits_absent(m: ServerInformationModel)
    ensures
        info_members_justified(m, info_pairs(m)),
{
    reveal_strlit("server_id");
    reveal_strlit("version");
    reveal_strlit("proto");
    reveal_strlit("go");
    reveal_strlit("host");
    reveal_strlit("port");
    reveal_strlit("auth_required");
    reveal_strlit("tls_required");
    reveal_strlit("max_payload");
    reveal_strlit("client_id");
    reveal_strlit("connect_urls");
    reveal_strlit("nonce");
    let q1 = seq![("server_id"@, crate::json::json_quote(m.server_id))];
    let q2 = q1 + seq![("version"@, crate::json::json_quote(m.version))];
    let q3 = q2 + opt_usize_pairs("proto"@, m.proto);
    let q4 = q3 + seq![("go"@, crate::json::json_quote(m.go))];
    let q5 = q4 + seq![("host"@, crate::json::json_quote(m.host))];
    let q6 = q5 + seq![("port"@, dec_str(m.port as nat))];
    let q7 = q6 + seq![("auth_required"@, crate::json::json_bool_text(m.auth_required))];
    let q8 = q7 + seq![("tls_required"@, crate::json::json_bool_text(m.tls_required))];
    let q9 = q8 + seq![("max_payload"@, dec_str(m.max_payload as nat))];
    let q10 = q9 + opt_usize_pairs("client_id"@, m.client_id);
    let q11 = q10 + opt_arr_pairs("connect_urls"@, m.connect_urls);
    let q12 = q11 + opt_str_pairs("nonce"@, m.nonce);
    assert(info_members_justified(m, q1)) by {
        lemma_info_keys_distinct();
    }
    assert(info_members_justified(m, seq![("version"@, crate::json::json_quote(m.version))])) by {
        lemma_info_keys_distinct();
    }
    lemma_info_justified_concat(m, q1, seq![("version"@, crate::json::json_quote(m.version))]);
    assert(info_members_justified(m, opt_usize_pairs("proto"@, m.proto))) by {
        lemma_info_keys_distinct();
    }
    lemma_info_justified_concat(m, q2, opt_usize_pairs("proto"@, m.proto));
    assert(info_members_justified(m, seq![("go"@, crate::json::json_quote(m.go))])) by {
        lemma_info_keys_distinct();
    }
    lemma_info_justified_concat(m, q3, seq![("go"@, crate::json::json_quote(m.go))]);
    assert(info_members_justified(m, seq![("host"@, crate::json::json_quote(m.host))])) by {
        lemma_info_keys_distinct();
    }
    lemma_info_justified_concat(m, q4, seq![("host"@, crate::json::json_quote(m.host))]);
    assert(info_members_justified(m, seq![("port"@, dec_str(m.port as nat))])) by {
        lemma_info_keys_distinct();
    }
    lemma_info_justified_concat(m, q5, seq![("port"@, dec_str(m.port as nat))]);
    assert(info_members_justified(m, seq![("auth_required"@, crate::json::json_bool_text(m.auth_required))])) by {
        lemma_info_keys_distinct();
    }
    lemma_info_justified_concat(
        m,
        q6,
        seq![("auth_required"@, crate::json::json_bool_text(m.auth_required))],
    );
    assert(info_members_justified(m, seq![("tls_required"@, crate::json::json_bool_text(m.tls_required))])) by {
        lemma_info_keys_distinct();
    }
    lemma_info_justified_concat(
        m,
        q7,
        seq![("tls_required"@, crate::json::json_bool_text(m.tls_required))],
    );
    assert(info_members_justified(m, seq![("max_payload"@, dec_str(m.max_payload as nat))])) by {
        lemma_info_keys_distinct();
    }
    lemma_info_justified_concat(m, q8, seq![("max_payload"@, dec_str(m.max_payload as nat))]);
    assert(info_members_justified(m, opt_usize_pairs("client_id"@, m.client_id))) by {
        lemma_info_keys_distinct();
    }
    lemma_info_justified_concat(m, q9, opt_usize_pairs("client_id"@, m.client_id));
    assert(info_members_justified(m, opt_arr_pairs("connect_urls"@, m.connect_urls))) by {
        lemma_info_keys_distinct();
    }
    lemma_info_justified_concat(m, q10, opt_arr_pairs("connect_urls"@, m.connect_urls));
    assert(info_members_justified(m, opt_str_pairs("nonce"@, m.nonce))) by {
        lemma_info_keys_distinct();
    }
    lemma_info_justified_concat(m, q11, opt_str_pairs("nonce"@, m.nonce));
    assert(info_pairs(m) == q12);
}

/// Optional-field omission, parsing side, for the INFO schema: a body
/// lacking every optional key still decodes; optional fields come back
/// absent and the defaulted flags and payload limit take their defaults.
pub proof fn lemma_info_missing_optionals_decode_absent(
    server_id: Seq<char>,
    version: Seq<char>,
    go: Seq<char>,
    host: Seq<char>,
    port: u64,
)
    ensures
        ({
            let r = info_fields_spec(
                JsonField::Typed(server_id),
                JsonField::Typed(version),
                JsonField::Missing,
                JsonField::Typed(go),
                JsonField::Typed(host),
                JsonField::Typed(port),
                JsonField::Missing,
                JsonField::Missing,
                JsonField::Missing,
                JsonField::Missing,
                JsonField::Missing,
                JsonField::Missing,
            );
            r is Some && r->0.proto is None && r->0.client_id is None && r->0.connect_urls is None
                && r->0.nonce is None && r->0.auth_required == false && r->0.tls_required == false
                && r->0.max_payload == 0
        }),
{
}

/// Optional-field omission, parsing side: JSON lacking every optional
/// key still decodes, and each optional field comes back absent rather
/// than failing or defaulting to an empty value.
pub proof fn lemma_missing_optionals_decode_absent(
    verbose: bool,
    pedantic: bool,
    tls: bool,
    lang: Seq<char>,
    name: Seq<char>,
    version: Seq<char>,
)
    ensures
        opt_string_field(JsonField::Missing) == Some(None::<Seq<char>>),
        opt_u64_field(JsonField::Missing) == Some(None::<u64>),
        opt_usize_field(JsonField::Missing) == Some(None::<usize>),
        opt_str_array_field(JsonField::Missing) == Some(None::<Seq<Seq<char>>>),
        ({
            let r = connect_fields_spec(
                JsonField::Typed(verbose),
                JsonField::Typed(pedantic),
                JsonField::Typed(tls),
                JsonField::Missing,
                JsonField::Missing,
                JsonField::Missing,
                JsonField::Typed(lang),
                JsonField::Typed(name),
                JsonField::Typed(version),
                JsonField::Missing,
                JsonField::Missing,
                JsonField::Missing,
            );
            r is Some && r->0.auth_token is None && r->0.user is None && r->0.pass is None
                && r->0.protocol is None && r->0.sig is None && r->0.jwt is None
        }),
{
}

} // verus!

verus! {

use crate::json::{connect_body_spec, info_body_spec};
use crate::text::{is_ws, trim_end_idx, trim_spec, trim_start_idx};

proof fn lemma_trim_start_exact(s: Seq<char>, i: int, m: int)
    requires
        0 <= i <= m <= s.len(),
        forall|k: int| i <= k < m ==> is_ws(s[k]),
        m == s.len() || !is_ws(s[m]),
    ensures
        trim_start_idx(s, i) == m,
    decreases m - i,
{
    if i == m {
    } else {
        lemma_trim_start_exact(s, i + 1, m);
    }
}

proof fn lemma_trim_end_exact(s: Seq<char>, j: int, m: int)
    requires
        0 <= m <= j <= s.len(),
        forall|k: int| m <= k < j ==> is_ws(s[k]),
        m == 0 || !is_ws(s[m - 1]),
    ensures
        trim_end_idx(s, j) == m,
    decreases j - m,
{
    if j == m {
    } else {
        lemma_trim_end_exact(s, j - 1, m);
    }
}

/// Leading whitespace does not change a trimmed text.
pub proof fn lemma_trim_ws_prefix(pad: Seq<char>, s: Seq<char>)
    requires
        forall|i: int| 0 <= i < pad.len() ==> is_ws(#[trigger] pad[i]),
    ensures
        trim_spec(pad + s) == trim_spec(s),
{
    let u = pad + s;
    let p = pad.len() as int;
    crate::text::lemma_trim_start_idx(s, 0);
    crate::text::lemma_trim_end_idx(s, s.len() as int);
    let a = trim_start_idx(s, 0);
    let b = trim_end_idx(s, s.len() as int);
    assert forall|k: int| 0 <= k < p + a implies is_ws(u[k]) by {
        if k < p {
            assert(u[k] == pad[k]);
        } else {
            assert(u[k] == s[k - p]);
        }
    }
    if a < s.len() {
        assert(u[p + a] == s[a]);
    }
    lemma_trim_start_exact(u, 0, p + a);
    if b == 0 {
        // the whole of `s` is whitespace, so the whole of `u` is too
        assert forall|k: int| 0 <= k < u.len() implies is_ws(u[k]) by {
            if k < p {
                assert(u[k] == pad[k]);
            } else {
                assert(u[k] == s[k - p]);
            }
        }
        lemma_trim_end_exact(u, u.len() as int, 0);
        assert(a == s.len()) by {
            if a < s.len() {
                assert(is_ws(s[a]));
            }
        }
    } else {
        assert forall|k: int| p + b <= k < u.len() implies is_ws(u[k]) by {
            assert(u[k] == s[k - p]);
        }
        assert(u[p + b - 1] == s[b - 1]);
        lemma_trim_end_exact(u, u.len() as int, p + b);
        if a < b {
            assert(u.subrange(p + a, p + b) =~= s.subrange(a, b));
        }
    }
}

/// Whitespace tolerance for the two structured kinds: however wide the
/// run of whitespace after the keyword is, the JSON text handed to the
/// outside codec is the same.
pub proof fn lemma_structured_body_whitespace(pad: Seq<char>, j: Seq<char>)
    requires
        forall|i: int| 0 <= i < pad.len() ==> is_ws(#[trigger] pad[i]),
    ensures
        info_body_spec(kw_info() + (pad + j)) == info_body_spec(kw_info() + j),
        connect_body_spec(kw_connect() + (pad + j)) == connect_body_spec(kw_connect() + j),
{
    lemma_trim_ws_prefix(pad, j);
    assert(starts_with(kw_info() + (pad + j), kw_info())) by {
        assert forall|i: int| 0 <= i < 4 implies (kw_info() + (pad + j))[i] == kw_info()[i] by {}
    }
    assert(starts_with(kw_info() + j, kw_info())) by {
        assert forall|i: int| 0 <= i < 4 implies (kw_info() + j)[i] == kw_info()[i] by {}
    }
    assert((kw_info() + (pad + j)).skip(4) =~= pad + j);
    assert((kw_info() + j).skip(4) =~= j);
    assert(starts_with(kw_connect() + (pad + j), kw_connect())) by {
        assert forall|i: int| 0 <= i < 7 implies (kw_connect() + (pad + j))[i] == kw_connect()[i]
            by {}
    }
    assert(starts_with(kw_connect() + j, kw_connect())) by {
        assert forall|i: int| 0 <= i < 7 implies (kw_connect() + j)[i] == kw_connect()[i] by {}
    }
    assert((kw_connect() + (pad + j)).skip(7) =~= pad + j);
    assert((kw_connect() + j).skip(7) =~= j);
}

} // verus!
