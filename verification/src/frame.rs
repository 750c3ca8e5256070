//! Event-stream framing: the completion text is split into
//! whitespace-delimited tokens, the tokens are grouped three to a frame and
//! rejoined with single spaces, each group is wrapped as a `data: ...`
//! record, and a sentinel record closes the stream.

use vstd::prelude::*;
use vstd::string::StringExecFns;
use vstd::string::StrSliceExecFns;
use vstd::seq_lib::lemma_flatten_concat;

verus! {

/// How many tokens one content frame carries.
pub const TOKENS_PER_FRAME: usize = 3;

/// The characters on which the text is split: the Unicode White_Space set —
/// the ASCII whitespace controls and space, next line, no-break space, ogham
/// space mark, the general punctuation spaces, the line and paragraph
/// separators, narrow no-break space, medium mathematical space and
/// ideographic space.
pub open spec fn is_ws(c: char) -> bool {
    let u = c as int;
    (0x09 <= u && u <= 0x0D) || u == 0x20 || u == 0x85 || u == 0xA0 || u == 0x1680 || (0x2000 <= u
        && u <= 0x200A) || u == 0x2028 || u == 0x2029 || u == 0x202F || u == 0x205F || u == 0x3000
}

fn is_ws_exec(c: char) -> (r: bool)
    ensures
        r == is_ws(c),
{
    let u = c as u32;
    (0x09 <= u && u <= 0x0D) || u == 0x20 || u == 0x85 || u == 0xA0 || u == 0x1680 || (0x2000 <= u
        && u <= 0x200A) || u == 0x2028 || u == 0x2029 || u == 0x202F || u == 0x205F || u == 0x3000
}

/// One splitter step over the finished tokens and the pending partial token
/// (empty when no token is open).
pub open spec fn tok_step(done: Seq<Seq<char>>, cur: Seq<char>, c: char) -> (Seq<Seq<char>>, Seq<
    char,
>) {
    if is_ws(c) {
        if cur.len() == 0 {
            (done, cur)
        } else {
            (done.push(cur), Seq::<char>::empty())
        }
    } else {
        (done, cur.push(c))
    }
}

/// The splitter folded over a text, left to right.
pub open spec fn tok_fold(done: Seq<Seq<char>>, cur: Seq<char>, s: Seq<char>) -> (Seq<Seq<char>>, Seq<
    char,
>)
    decreases s.len(),
{
    if s.len() == 0 {
        (done, cur)
    } else {
        let st = tok_step(done, cur, s[0]);
        tok_fold(st.0, st.1, s.drop_first())
    }
}

/// The whitespace-delimited tokens of a text, in order.
pub open spec fn tokens_of(s: Seq<char>) -> Seq<Seq<char>> {
    let st = tok_fold(Seq::empty(), Seq::empty(), s);
    if st.1.len() == 0 {
        st.0
    } else {
        st.0.push(st.1)
    }
}

/// A text with no whitespace character in it.
pub open spec fn ws_free(t: Seq<char>) -> bool {
    forall|i: int| 0 <= i < t.len() ==> !is_ws(t[i])
}

/// What holds of every token the splitter emits: non-empty and free of
/// whitespace.
pub open spec fn good_token(t: Seq<char>) -> bool {
    t.len() > 0 && ws_free(t)
}

/// Every element is a good token.
pub open spec fn all_good(ts: Seq<Seq<char>>) -> bool {
    forall|i: int| 0 <= i < ts.len() ==> good_token(#[trigger] ts[i])
}

proof fn lemma_tok_fold_concat(done: Seq<Seq<char>>, cur: Seq<char>, a: Seq<char>, b: Seq<char>)
    ensures
        tok_fold(done, cur, a + b) == tok_fold(
            tok_fold(done, cur, a).0,
            tok_fold(done, cur, a).1,
            b,
        ),
    decreases a.len(),
{
    if a.len() == 0 {
        assert(a + b =~= b);
    } else {
        let st = tok_step(done, cur, a[0]);
        assert((a + b)[0] == a[0]);
        assert((a + b).drop_first() =~= a.drop_first() + b);
        lemma_tok_fold_concat(st.0, st.1, a.drop_first(), b);
    }
}

proof fn lemma_tok_fold_snoc(done: Seq<Seq<char>>, cur: Seq<char>, s: Seq<char>, c: char)
    ensures
        tok_fold(done, cur, s.push(c)) == tok_step(
            tok_fold(done, cur, s).0,
            tok_fold(done, cur, s).1,
            c,
        ),
{
    assert(s.push(c) =~= s + seq![c]);
    lemma_tok_fold_concat(done, cur, s, seq![c]);
    let f = tok_fold(done, cur, s);
    let st = tok_step(f.0, f.1, c);
    assert(seq![c].drop_first() =~= Seq::<char>::empty());
    assert(tok_fold(st.0, st.1, seq![c].drop_first()) == st);
}

proof fn lemma_tok_fold_good(done: Seq<Seq<char>>, cur: Seq<char>, s: Seq<char>)
    requires
        all_good(done),
        ws_free(cur),
    ensures
        all_good(tok_fold(done, cur, s).0),
        ws_free(tok_fold(done, cur, s).1),
    decreases s.len(),
{
    if s.len() > 0 {
        let st = tok_step(done, cur, s[0]);
        assert(all_good(st.0) && ws_free(st.1)) by {
            if is_ws(s[0]) && cur.len() != 0 {
                assert(forall|i: int|
                    0 <= i < done.push(cur).len() ==> good_token(#[trigger] done.push(cur)[i]));
            } else if !is_ws(s[0]) {
                assert(forall|i: int| 0 <= i < cur.push(s[0]).len() ==> !is_ws(cur.push(s[0])[i]));
            }
        }
        lemma_tok_fold_good(st.0, st.1, s.drop_first());
    }
}

/// Law: every token the splitter yields is non-empty and free of whitespace.
pub proof fn lemma_tokens_good(s: Seq<char>)
    ensures
        all_good(tokens_of(s)),
{
    lemma_tok_fold_good(Seq::empty(), Seq::empty(), s);
    let f = tok_fold(Seq::<Seq<char>>::empty(), Seq::<char>::empty(), s);
    if f.1.len() != 0 {
        assert(forall|i: int|
            0 <= i < f.0.push(f.1).len() ==> good_token(#[trigger] f.0.push(f.1)[i]));
    }
}

proof fn lemma_tok_fold_ws_free_run(done: Seq<Seq<char>>, cur: Seq<char>, t: Seq<char>)
    requires
        ws_free(t),
    ensures
        tok_fold(done, cur, t).0 == done,
        tok_fold(done, cur, t).1 == cur + t,
    decreases t.len(),
{
    if t.len() == 0 {
        assert(cur + t =~= cur);
    } else {
        assert(!is_ws(t[0]));
        assert(ws_free(t.drop_first()));
        lemma_tok_fold_ws_free_run(done, cur.push(t[0]), t.drop_first());
        assert(cur.push(t[0]) + t.drop_first() =~= cur + t);
    }
}

/// The tokens of a group rejoined with single spaces.
pub open spec fn join_words(ws: Seq<Seq<char>>) -> Seq<char>
    decreases ws.len(),
{
    if ws.len() == 0 {
        Seq::empty()
    } else if ws.len() == 1 {
        ws[0]
    } else {
        join_words(ws.drop_last()) + seq![' '] + ws.last()
    }
}

/// Law: rejoining a group of good tokens with spaces and splitting again
/// yields the group back.
pub proof fn lemma_join_round_trip(ts: Seq<Seq<char>>)
    requires
        all_good(ts),
    ensures
        tokens_of(join_words(ts)) == ts,
    decreases ts.len(),
{
    if ts.len() == 0 {
        assert(tokens_of(join_words(ts)) =~= ts);
    } else {
        lemma_tok_fold_ends(Seq::empty(), ts);
        let f = tok_fold(Seq::<Seq<char>>::empty(), Seq::<char>::empty(), join_words(ts));
        assert(f.1 == ts.last() && ts.last().len() > 0);
        assert(Seq::<Seq<char>>::empty() + ts.drop_last() =~= ts.drop_last());
        assert(ts.drop_last().push(ts.last()) =~= ts);
    }
}

proof fn lemma_tok_fold_ends(done: Seq<Seq<char>>, ts: Seq<Seq<char>>)
    requires
        all_good(ts),
        ts.len() > 0,
    ensures
        tok_fold(done, Seq::empty(), join_words(ts)).0 == done + ts.drop_last(),
        tok_fold(done, Seq::empty(), join_words(ts)).1 == ts.last(),
    decreases ts.len(),
{
    if ts.len() == 1 {
        lemma_tok_fold_ws_free_run(done, Seq::empty(), ts[0]);
        assert(Seq::<char>::empty() + ts[0] =~= ts[0]);
        assert(done + ts.drop_last() =~= done);
    } else {
        let front = ts.drop_last();
        assert(all_good(front)) by {
            assert(forall|i: int| 0 <= i < front.len() ==> front[i] == ts[i]);
        }
        lemma_tok_fold_ends(done, front);
        let f = tok_fold(done, Seq::<char>::empty(), join_words(front));
        let mid = seq![' '] + ts.last();
        assert(join_words(ts) == join_words(front) + mid) by {
            assert(join_words(front) + seq![' '] + ts.last() =~= join_words(front) + mid);
        }
        lemma_tok_fold_concat(done, Seq::empty(), join_words(front), mid);
        // One space closes the pending token, then the last token runs on.
        assert(mid[0] == ' ' && is_ws(' '));
        assert(f.1 == front.last() && front.last().len() > 0);
        let st = tok_step(f.0, f.1, mid[0]);
        assert(st.0 == f.0.push(f.1) && st.1 == Seq::<char>::empty());
        assert(mid.drop_first() =~= ts.last());
        assert(ws_free(ts.last()));
        assert(tok_fold(f.0, f.1, mid) == tok_fold(st.0, st.1, mid.drop_first()));
        lemma_tok_fold_ws_free_run(st.0, st.1, ts.last());
        assert(Seq::<char>::empty() + ts.last() =~= ts.last());
        assert(f.0.push(f.1) =~= done + ts.drop_last());
    }
}

/// The joined payloads of a token sequence, taken three tokens at a time; a
/// final short group forms its own payload, and no tokens yield no payloads.
pub open spec fn chunk_payloads(ts: Seq<Seq<char>>) -> Seq<Seq<char>>
    decreases ts.len(),
{
    if ts.len() == 0 {
        Seq::empty()
    } else if ts.len() <= TOKENS_PER_FRAME as int {
        seq![join_words(ts)]
    } else {
        seq![join_words(ts.take(TOKENS_PER_FRAME as int))] + chunk_payloads(
            ts.skip(TOKENS_PER_FRAME as int),
        )
    }
}

/// Law: there is one payload per three tokens, rounding up.
pub proof fn lemma_chunk_count(ts: Seq<Seq<char>>)
    ensures
        chunk_payloads(ts).len() == (ts.len() + 2) / 3,
    decreases ts.len(),
{
    if ts.len() > TOKENS_PER_FRAME as int {
        lemma_chunk_count(ts.skip(TOKENS_PER_FRAME as int));
    }
}

/// Each payload split back into its tokens.
pub open spec fn split_map(ps: Seq<Seq<char>>) -> Seq<Seq<Seq<char>>> {
    ps.map_values(|p: Seq<char>| tokens_of(p))
}

/// Law: splitting every payload back into tokens, in payload order, yields
/// exactly the original token sequence.
pub proof fn lemma_chunks_round_trip(ts: Seq<Seq<char>>)
    requires
        all_good(ts),
    ensures
        split_map(chunk_payloads(ts)).flatten() == ts,
    decreases ts.len(),
{
    if ts.len() == 0 {
        assert(split_map(chunk_payloads(ts)) =~= Seq::<Seq<Seq<char>>>::empty());
        assert(split_map(chunk_payloads(ts)).flatten() =~= ts);
    } else if ts.len() <= TOKENS_PER_FRAME as int {
        lemma_join_round_trip(ts);
        assert(split_map(chunk_payloads(ts)) =~= seq![tokens_of(join_words(ts))]);
        seq![tokens_of(join_words(ts))].lemma_flatten_one_element();
        assert(split_map(chunk_payloads(ts)).flatten() =~= ts);
    } else {
        let k = TOKENS_PER_FRAME as int;
        let head = ts.take(k);
        let tail = ts.skip(k);
        assert(all_good(head)) by {
            assert(forall|i: int| 0 <= i < head.len() ==> head[i] == ts[i]);
        }
        assert(all_good(tail)) by {
            assert(forall|i: int| 0 <= i < tail.len() ==> tail[i] == ts[i + k]);
        }
        lemma_join_round_trip(head);
        lemma_chunks_round_trip(tail);
        assert(split_map(chunk_payloads(ts)) =~= seq![tokens_of(join_words(head))] + split_map(
            chunk_payloads(tail),
        ));
        lemma_flatten_concat(seq![tokens_of(join_words(head))], split_map(chunk_payloads(tail)));
        seq![tokens_of(join_words(head))].lemma_flatten_one_element();
        assert(split_map(chunk_payloads(ts)).flatten() =~= ts) by {
            assert(head + tail =~= ts);
        }
    }
}

/// One event-stream record for a payload.
pub open spec fn frame_text(payload: Seq<char>) -> Seq<char> {
    "data: "@ + payload + "\n\n"@
}

/// The sentinel record that closes every stream.
pub open spec fn sentinel_text() -> Seq<char> {
    frame_text("[DONE]"@)
}

/// Each payload wrapped as an event-stream record.
pub open spec fn frame_map(ps: Seq<Seq<char>>) -> Seq<Seq<char>> {
    ps.map_values(|p: Seq<char>| frame_text(p))
}

/// The payloads of a text: its tokens, grouped and rejoined.
pub open spec fn payloads_of(text: Seq<char>) -> Seq<Seq<char>> {
    chunk_payloads(tokens_of(text))
}

/// The full frame sequence of a text: one record per payload, in order, then
/// the sentinel.
pub open spec fn frames_of(text: Seq<char>) -> Seq<Seq<char>> {
    frame_map(payloads_of(text)).push(sentinel_text())
}

/// The whole event-stream body: the frames, concatenated.
pub open spec fn stream_text(text: Seq<char>) -> Seq<char> {
    frames_of(text).flatten()
}

/// Law: framing any text yields one content frame per three tokens, rounding
/// up, plus exactly one final sentinel frame, and each content frame wraps
/// the corresponding payload.
pub proof fn lemma_frame_count(text: Seq<char>)
    ensures
        frames_of(text).len() == (tokens_of(text).len() + 2) / 3 + 1,
        frames_of(text).last() == sentinel_text(),
        forall|i: int|
            0 <= i < frames_of(text).len() - 1 ==> #[trigger] frames_of(text)[i] == frame_text(
                payloads_of(text)[i],
            ),
{
    lemma_chunk_count(tokens_of(text));
}

/// Law: splitting the content frames' payloads back into tokens and
/// concatenating them, in frame order, reproduces the token sequence of the
/// original text exactly.
pub proof fn lemma_token_round_trip(text: Seq<char>)
    ensures
        split_map(payloads_of(text)).flatten() == tokens_of(text),
{
    lemma_tokens_good(text);
    lemma_chunks_round_trip(tokens_of(text));
}

/// Law: framing depends only on the token sequence. Two texts with the same
/// tokens — however their whitespace runs differ — frame to identical frame
/// sequences and identical stream bodies: inside frames, the runs are
/// normalized to single spaces.
pub proof fn lemma_framing_token_determined(t1: Seq<char>, t2: Seq<char>)
    requires
        tokens_of(t1) == tokens_of(t2),
    ensures
        frames_of(t1) == frames_of(t2),
        stream_text(t1) == stream_text(t2),
{
}

proof fn lemma_chunk_token_counts(ts: Seq<Seq<char>>)
    requires
        all_good(ts),
    ensures
        forall|i: int|
            0 <= i < chunk_payloads(ts).len() ==> tokens_of(
                #[trigger] chunk_payloads(ts)[i],
            ).len() <= TOKENS_PER_FRAME as int,
        forall|i: int|
            0 <= i < chunk_payloads(ts).len() - 1 ==> tokens_of(
                #[trigger] chunk_payloads(ts)[i],
            ).len() == TOKENS_PER_FRAME as int,
    decreases ts.len(),
{
    let k = TOKENS_PER_FRAME as int;
    if ts.len() == 0 {
    } else if ts.len() <= k {
        lemma_join_round_trip(ts);
        assert(chunk_payloads(ts)[0] == join_words(ts));
    } else {
        let head = ts.take(k);
        let tail = ts.skip(k);
        assert(all_good(head)) by {
            assert(forall|i: int| 0 <= i < head.len() ==> head[i] == ts[i]);
        }
        assert(all_good(tail)) by {
            assert(forall|i: int| 0 <= i < tail.len() ==> tail[i] == ts[i + k]);
        }
        lemma_join_round_trip(head);
        lemma_chunk_token_counts(tail);
        assert forall|i: int| 0 <= i < chunk_payloads(ts).len() implies tokens_of(
            #[trigger] chunk_payloads(ts)[i],
        ).len() <= k by {
            if i == 0 {
                assert(chunk_payloads(ts)[0] == join_words(head));
            } else {
                assert(chunk_payloads(ts)[i] == chunk_payloads(tail)[i - 1]);
            }
        }
        assert forall|i: int| 0 <= i < chunk_payloads(ts).len() - 1 implies tokens_of(
            #[trigger] chunk_payloads(ts)[i],
        ).len() == k by {
            if i == 0 {
                assert(chunk_payloads(ts)[0] == join_words(head));
                assert(head.len() == k);
            } else {
                assert(chunk_payloads(ts)[i] == chunk_payloads(tail)[i - 1]);
            }
        }
    }
}

/// Law: every content frame's payload splits back into at most three tokens,
/// and every content frame before the last splits into exactly three; only
/// the final content frame may run short.
pub proof fn lemma_frame_token_counts(text: Seq<char>)
    ensures
        forall|i: int|
            0 <= i < payloads_of(text).len() ==> tokens_of(
                #[trigger] payloads_of(text)[i],
            ).len() <= TOKENS_PER_FRAME as int,
        forall|i: int|
            0 <= i < payloads_of(text).len() - 1 ==> tokens_of(
                #[trigger] payloads_of(text)[i],
            ).len() == TOKENS_PER_FRAME as int,
{
    lemma_tokens_good(text);
    lemma_chunk_token_counts(tokens_of(text));
}

/// Law: the empty text frames as the sentinel alone.
pub proof fn lemma_empty_frames()
    ensures
        frames_of(Seq::<char>::empty()) == seq![sentinel_text()],
{
    assert(tokens_of(Seq::<char>::empty()) =~= Seq::<Seq<char>>::empty());
    assert(frame_map(payloads_of(Seq::<char>::empty())) =~= Seq::<Seq<char>>::empty());
    assert(frames_of(Seq::<char>::empty()) =~= seq![sentinel_text()]);
}

/// Splits a text into its whitespace-delimited tokens.
pub fn tokenize(text: &str) -> (toks: Vec<String>)
    ensures
        toks.deep_view() == tokens_of(text@),
{
    let n = text.unicode_len();
    let mut toks: Vec<String> = Vec::new();
    let mut start: usize = 0;
    let mut in_run: bool = false;
    let mut i: usize = 0;
    proof {
        assert(text@.take(0) =~= Seq::<char>::empty());
        assert(toks.deep_view() =~= Seq::<Seq<char>>::empty());
    }
    while i < n
        invariant
            n == text@.len(),
            i <= n,
            start <= i,
            toks.deep_view() == tok_fold(Seq::empty(), Seq::empty(), text@.take(i as int)).0,
            in_run ==> start < i && tok_fold(Seq::empty(), Seq::empty(), text@.take(i as int)).1
                == text@.subrange(start as int, i as int),
            !in_run ==> tok_fold(Seq::empty(), Seq::empty(), text@.take(i as int)).1.len() == 0,
        decreases n - i,
    {
        let ghost f = tok_fold(
            Seq::<Seq<char>>::empty(),
            Seq::<char>::empty(),
            text@.take(i as int),
        );
        let c = text.get_char(i);
        proof {
            assert(text@.take(i as int + 1) =~= text@.take(i as int).push(c));
            lemma_tok_fold_snoc(Seq::empty(), Seq::empty(), text@.take(i as int), c);
        }
        if is_ws_exec(c) {
            if in_run {
                let tok = String::from_str(text.substring_char(start, i));
                proof {
                    assert(tok@ == f.1);
                }
                toks.push(tok);
                proof {
                    assert(toks.deep_view() =~= tok_fold(
                        Seq::empty(),
                        Seq::empty(),
                        text@.take(i as int + 1),
                    ).0);
                }
                in_run = false;
            }
        } else {
            if !in_run {
                start = i;
                in_run = true;
            }
            proof {
                assert(text@.subrange(start as int, i as int + 1) =~= tok_step(f.0, f.1, c).1);
            }
        }
        i += 1;
    }
    proof {
        assert(text@.take(n as int) =~= text@);
    }
    if in_run {
        let tok = String::from_str(text.substring_char(start, n));
        toks.push(tok);
        proof {
            assert(toks.deep_view() =~= tokens_of(text@));
        }
    } else {
        proof {
            assert(toks.deep_view() =~= tokens_of(text@));
        }
    }
    toks
}

/// Builds one content frame around a payload.
fn build_frame(payload: &str) -> (r: String)
    ensures
        r@ == frame_text(payload@),
{
    let mut r = String::from_str("data: ");
    r.append(payload);
    r.append("\n\n");
    proof {
        assert(r@ =~= frame_text(payload@));
    }
    r
}

/// The sentinel frame.
pub fn sentinel_frame() -> (r: String)
    ensures
        r@ == sentinel_text(),
{
    build_frame("[DONE]")
}

/// Joins the tokens `toks[from..to]` with single spaces.
fn join_group(toks: &Vec<String>, from: usize, to: usize) -> (r: String)
    requires
        from < to <= toks@.len(),
    ensures
        r@ == join_words(toks.deep_view().subrange(from as int, to as int)),
{
    let mut r = toks[from].clone();
    proof {
        assert(toks.deep_view().subrange(from as int, from as int + 1) =~= seq![
            toks@[from as int]@,
        ]);
    }
    let mut m: usize = from + 1;
    while m < to
        invariant
            from < m <= to <= toks@.len(),
            r@ == join_words(toks.deep_view().subrange(from as int, m as int)),
        decreases to - m,
    {
        r.append(" ");
        r.append(toks[m].as_str());
        proof {
            reveal_strlit(" ");
            assert(" "@ =~= seq![' ']);
            let sub = toks.deep_view().subrange(from as int, m as int + 1);
            assert(sub.drop_last() =~= toks.deep_view().subrange(from as int, m as int));
            assert(sub.last() == toks@[m as int]@);
            assert(r@ =~= join_words(sub));
        }
        m += 1;
    }
    r
}

/// Frames a completion text: one `data: ...` record per group of three
/// tokens, in order, then exactly one sentinel record. The empty text yields
/// the sentinel alone.
pub fn frames(text: &str) -> (fs: Vec<String>)
    ensures
        fs.deep_view() == frames_of(text@),
{
    let toks = tokenize(text);
    let n = toks.len();
    let mut fs: Vec<String> = Vec::new();
    let mut k: usize = 0;
    proof {
        assert(toks.deep_view().skip(0) =~= toks.deep_view());
        assert(fs.deep_view() =~= Seq::<Seq<char>>::empty());
        assert(Seq::<Seq<char>>::empty() + frame_map(payloads_of(text@)) =~= frame_map(
            payloads_of(text@),
        ));
    }
    while k < n
        invariant
            n == toks@.len(),
            k <= n,
            toks.deep_view() == tokens_of(text@),
            fs.deep_view() + frame_map(chunk_payloads(toks.deep_view().skip(k as int)))
                == frame_map(payloads_of(text@)),
        decreases n - k,
    {
        let ghost rem = toks.deep_view().skip(k as int);
        let last = n - k <= TOKENS_PER_FRAME;
        let end = if last {
            n
        } else {
            k + TOKENS_PER_FRAME
        };
        let payload = join_group(&toks, k, end);
        proof {
            if last {
                assert(toks.deep_view().subrange(k as int, end as int) =~= rem);
                assert(chunk_payloads(rem) =~= seq![join_words(rem)]);
            } else {
                assert(toks.deep_view().subrange(k as int, end as int) =~= rem.take(
                    TOKENS_PER_FRAME as int,
                ));
                assert(rem.skip(TOKENS_PER_FRAME as int) =~= toks.deep_view().skip(end as int));
            }
        }
        let fr = build_frame(payload.as_str());
        fs.push(fr);
        proof {
            if last {
                assert(toks.deep_view().skip(end as int) =~= Seq::<Seq<char>>::empty());
                assert(chunk_payloads(toks.deep_view().skip(end as int))
                    =~= Seq::<Seq<char>>::empty());
            }
            assert(frame_map(chunk_payloads(rem)) =~= seq![frame_text(payload@)] + frame_map(
                chunk_payloads(toks.deep_view().skip(end as int)),
            ));
            assert(fs.deep_view() + frame_map(chunk_payloads(toks.deep_view().skip(end as int)))
                =~= frame_map(payloads_of(text@)));
        }
        k = end;
    }
    proof {
        assert(toks.deep_view().skip(n as int) =~= Seq::<Seq<char>>::empty());
        assert(chunk_payloads(toks.deep_view().skip(n as int)) =~= Seq::<Seq<char>>::empty());
        assert(frame_map(chunk_payloads(toks.deep_view().skip(n as int)))
            =~= Seq::<Seq<char>>::empty());
        assert(fs.deep_view() =~= frame_map(payloads_of(text@)));
    }
    let sentinel = sentinel_frame();
    fs.push(sentinel);
    proof {
        assert(fs.deep_view() =~= frames_of(text@));
    }
    fs
}

/// The buffered event-stream body for a completion text: every frame of
/// `frames`, concatenated in order.
pub fn sse_body(text: &str) -> (r: String)
    ensures
        r@ == stream_text(text@),
{
    let fs = frames(text);
    let mut r = String::new();
    let mut i: usize = 0;
    proof {
        assert(fs.deep_view().take(0) =~= Seq::<Seq<char>>::empty());
        assert(Seq::<Seq<char>>::empty().flatten() =~= Seq::<char>::empty());
    }
    while i < fs.len()
        invariant
            fs.deep_view() == frames_of(text@),
            i <= fs@.len(),
            r@ == fs.deep_view().take(i as int).flatten(),
        decreases fs@.len() - i,
    {
        r.append(fs[i].as_str());
        proof {
            let dv = fs.deep_view();
            assert(dv.take(i as int + 1) =~= dv.take(i as int).push(dv[i as int]));
            dv.take(i as int).lemma_flatten_push(dv[i as int]);
        }
        i += 1;
    }
    proof {
        assert(fs.deep_view().take(fs@.len() as int) =~= fs.deep_view());
    }
    r
}

} // verus!
