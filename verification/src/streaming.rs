//! Streaming of model output: text is passed on as it arrives, code blocks
//! are recognised, and `primeactions` blocks are held back until complete.
use std::time::Instant;
use vstd::prelude::*;
use crate::clock::{millis_since, now};
use crate::text::{
    lemma_find_from_some, lemma_next_char_bounds,
    chars_of, copy_chars, ends_with, eq_str, find, matches_at, next_char, next_char_at, occurs_at,
    push_chars, slice_chars, string_of, trim, trim_chars, find_chars,
};

verus! {

/// The flush interval, in milliseconds: text with no marker in sight is
/// passed on once this much time has gone by since the last flush.
const FLUSH_INTERVAL_MILLIS: u64 = 50;

/// A piece of streamed output.
#[derive(Debug, Clone)]
pub enum StreamToken {
    /// Text to show.
    Text(String),
    /// The body of a complete `primeactions` block.
    ToolCall(String),
    /// The stream has ended.
    Done,
}

/// A stream token with its text as a character sequence.
pub enum StreamTokenView {
    Text(Seq<char>),
    ToolCall(Seq<char>),
    Done,
}

impl View for StreamToken {
    type V = StreamTokenView;

    open spec fn view(&self) -> StreamTokenView {
        match self {
            StreamToken::Text(s) => StreamTokenView::Text(s@),
            StreamToken::ToolCall(s) => StreamTokenView::ToolCall(s@),
            StreamToken::Done => StreamTokenView::Done,
        }
    }
}

/// Where the stream stands with respect to code blocks.
enum CodeBlockState {
    /// Outside any code block.
    Outside,
    /// Inside a code block of the given language.
    InBlock(Vec<char>),
}

/// The block state as a value.
pub enum BlockView {
    Outside,
    InBlock(Seq<char>),
}

/// Handles streamed model output, holding back what may still turn out to be
/// part of a code-block marker or of an action block.
pub struct StreamHandler {
    buffer: Vec<char>,
    state: CodeBlockState,
    last_flush: Instant,
    flush_interval_ms: u64,
}

/// The views of a sequence of stream tokens.
pub open spec fn token_views(v: Seq<StreamToken>) -> Seq<StreamTokenView> {
    v.map_values(|t: StreamToken| t@)
}

/// The language tag of action blocks.
pub open spec fn actions_lang() -> Seq<char> {
    "primeactions"@
}

/// A code fence.
pub open spec fn fence3() -> Seq<char> {
    seq!['`', '`', '`']
}

/// The first index at or after `i` where a fence stands at the start of the
/// buffer or right after a line break.
pub open spec fn closing_from(b: Seq<char>, i: int) -> Option<int>
    decreases b.len() + 1 - i,
{
    if i < 0 || i + 3 > b.len() {
        None
    } else if occurs_at(b, fence3(), i) && (i == 0 || b[i - 1] == '\n') {
        Some(i)
    } else {
        closing_from(b, i + 1)
    }
}

/// What the handler emits for the buffer `b` in state `st`, and the buffer
/// and state it is left with. `due` says whether the flush interval has
/// passed: only then is plain text passed on without a marker to end it.
pub open spec fn drain(b: Seq<char>, st: BlockView, due: bool) -> (
    Seq<StreamTokenView>,
    Seq<char>,
    BlockView,
)
    decreases b.len(),
{
    match st {
        BlockView::Outside => match find(b, fence3()) {
            Some(idx) => {
                let after = b.skip(idx + 3);
                let nl = next_char(after, '\n', 0);
                if nl < after.len() {
                    let lang = trim(after.take(nl));
                    let before = b.take(idx);
                    let out1 = if before.len() > 0 {
                        seq![StreamTokenView::Text(before)]
                    } else {
                        Seq::empty()
                    };
                    let out2 = if lang != actions_lang() {
                        seq![StreamTokenView::Text(fence3() + lang + seq!['\n'])]
                    } else {
                        Seq::empty()
                    };
                    proof {
                        lemma_find_from_some(b, fence3(), 0);
                        lemma_next_char_bounds(after, '\n', 0);
                    }
                    let rest = drain(after.skip(nl + 1), BlockView::InBlock(lang), due);
                    (out1 + out2 + rest.0, rest.1, rest.2)
                } else {
                    (Seq::empty(), b, BlockView::Outside)
                }
            },
            None => {
                if ends_with(b, seq!['`']) {
                    (Seq::empty(), b, BlockView::Outside)
                } else if due && b.len() > 0 {
                    (seq![StreamTokenView::Text(b)], Seq::empty(), BlockView::Outside)
                } else {
                    (Seq::empty(), b, BlockView::Outside)
                }
            },
        },
        BlockView::InBlock(lang) => match closing_from(b, 0) {
            Some(idx) => {
                let content = b.take(idx);
                let out = if lang == actions_lang() {
                    seq![StreamTokenView::ToolCall(content)]
                } else {
                    seq![StreamTokenView::Text(content), StreamTokenView::Text(fence3())]
                };
                proof {
                    lemma_closing_from_some(b, 0);
                }
                let rest = drain(b.skip(idx + 3), BlockView::Outside, due);
                (out + rest.0, rest.1, rest.2)
            },
            None => {
                if ends_with(b, seq!['`']) {
                    (Seq::empty(), b, st)
                } else if lang != actions_lang() && due && b.len() > 0 {
                    (seq![StreamTokenView::Text(b)], Seq::empty(), st)
                } else {
                    (Seq::empty(), b, st)
                }
            },
        },
    }
}

/// A closing fence that is found stands in the buffer.
pub proof fn lemma_closing_from_some(b: Seq<char>, i: int)
    ensures
        closing_from(b, i) matches Some(k) ==> i <= k && k + 3 <= b.len() && occurs_at(b, fence3(), k)
            && (k == 0 || b[k - 1] == '\n'),
    decreases b.len() + 1 - i,
{
    if !(i < 0 || i + 3 > b.len()) && !(occurs_at(b, fence3(), i) && (i == 0 || b[i - 1] == '\n')) {
        lemma_closing_from_some(b, i + 1);
    }
}

/// Text without a backquote holds no fence.
proof fn lemma_no_fence(b: Seq<char>, i: int)
    requires
        forall|j: int| 0 <= j < b.len() ==> b[j] != '`',
    ensures
        crate::text::find_from(b, fence3(), i) is None,
    decreases b.len() + 1 - i,
{
    if !(i < 0 || i + 3 > b.len()) {
        if occurs_at(b, fence3(), i) {
            assert(b.subrange(i, i + 3)[0] == b[i]);
        }
        lemma_no_fence(b, i + 1);
    }
}

/// Text without backquotes streams out unchanged: outside a code block,
/// once the flush interval has passed the whole buffer comes out as one
/// text, and before that it stays buffered.
pub proof fn law_plain_text_passes_through(b: Seq<char>, due: bool)
    requires
        forall|j: int| 0 <= j < b.len() ==> b[j] != '`',
    ensures
        drain(b, BlockView::Outside, due) == if due && b.len() > 0 {
            (seq![StreamTokenView::Text(b)], Seq::<char>::empty(), BlockView::Outside)
        } else {
            (Seq::<StreamTokenView>::empty(), b, BlockView::Outside)
        },
{
    lemma_no_fence(b, 0);
    if b.len() > 0 {
        assert(b.skip(b.len() - 1)[0] == b[b.len() - 1]);
    }
}

/// The tokens' texts joined, in order.
pub open spec fn joined_tokens(tokens: Seq<Seq<char>>) -> Seq<char>
    decreases tokens.len(),
{
    if tokens.len() == 0 {
        Seq::empty()
    } else {
        joined_tokens(tokens.drop_last()) + tokens.last()
    }
}

/// The text of the `Text` pieces among the stream's pieces, joined in order.
pub open spec fn texts(ts: Seq<StreamTokenView>) -> Seq<char>
    decreases ts.len(),
{
    if ts.len() == 0 {
        Seq::empty()
    } else {
        texts(ts.drop_last()) + match ts.last() {
            StreamTokenView::Text(t) => t,
            _ => Seq::empty(),
        }
    }
}

/// What `flush` hands out of a buffer, outside any block.
pub open spec fn flushed(b: Seq<char>) -> Seq<StreamTokenView> {
    if b.len() > 0 {
        seq![StreamTokenView::Text(b)]
    } else {
        Seq::empty()
    }
}

/// Handling the tokens in order, from a buffer `buf` outside any block, with
/// the given flush decisions: the pieces handed out, what stays buffered, and
/// the block state at the end.
pub open spec fn stream_run(buf: Seq<char>, tokens: Seq<Seq<char>>, dues: Seq<bool>) -> (
    Seq<StreamTokenView>,
    Seq<char>,
    BlockView,
)
    decreases tokens.len(),
{
    if tokens.len() == 0 {
        (Seq::empty(), buf, BlockView::Outside)
    } else {
        let prev = stream_run(buf, tokens.drop_last(), dues);
        let d = drain(prev.1 + tokens.last(), prev.2, dues[tokens.len() - 1]);
        (prev.0 + d.0, d.1, d.2)
    }
}

proof fn lemma_texts_append(a: Seq<StreamTokenView>, b: Seq<StreamTokenView>)
    ensures
        texts(a + b) == texts(a) + texts(b),
    decreases b.len(),
{
    if b.len() == 0 {
        assert(a + b =~= a);
    } else {
        lemma_texts_append(a, b.drop_last());
        assert((a + b).drop_last() =~= a + b.drop_last());
    }
}

/// Text without backquotes, streamed in any number of tokens with any flush
/// decisions, comes out unchanged: every piece handed out is text, and the
/// pieces, then what a final flush hands out, join to exactly the streamed
/// text; nothing is lost, doubled or reordered.
pub proof fn law_stream_then_flush_gives_text_back(
    buf: Seq<char>,
    tokens: Seq<Seq<char>>,
    dues: Seq<bool>,
)
    requires
        tokens.len() <= dues.len(),
        forall|j: int| 0 <= j < (buf + joined_tokens(tokens)).len() ==> (buf + joined_tokens(tokens))[j]
            != '`',
    ensures
        stream_run(buf, tokens, dues).2 == BlockView::Outside,
        forall|j: int|
            0 <= j < stream_run(buf, tokens, dues).0.len() ==> #[trigger] stream_run(
                buf,
                tokens,
                dues,
            ).0[j] is Text,
        texts(stream_run(buf, tokens, dues).0) + stream_run(buf, tokens, dues).1 == buf + joined_tokens(
            tokens,
        ),
        texts(stream_run(buf, tokens, dues).0 + flushed(stream_run(buf, tokens, dues).1)) == buf
            + joined_tokens(tokens),
    decreases tokens.len(),
{
    let r = stream_run(buf, tokens, dues);
    if tokens.len() == 0 {
        assert(buf + joined_tokens(tokens) =~= buf);
        assert(texts(r.0) =~= Seq::<char>::empty());
    } else {
        let init = tokens.drop_last();
        let x = buf + joined_tokens(init);
        assert(buf + joined_tokens(tokens) =~= x + tokens.last());
        assert forall|j: int| 0 <= j < x.len() implies x[j] != '`' by {
            assert((buf + joined_tokens(tokens))[j] == x[j]);
        }
        law_stream_then_flush_gives_text_back(buf, init, dues);
        let prev = stream_run(buf, init, dues);
        let b = prev.1 + tokens.last();
        assert(texts(prev.0) + b =~= buf + joined_tokens(tokens));
        assert forall|j: int| 0 <= j < b.len() implies b[j] != '`' by {
            assert((texts(prev.0) + b)[texts(prev.0).len() + j] == b[j]);
        }
        law_plain_text_passes_through(b, dues[tokens.len() - 1]);
        let d = drain(b, BlockView::Outside, dues[tokens.len() - 1]);
        lemma_texts_append(prev.0, d.0);
        if dues[tokens.len() - 1] && b.len() > 0 {
            assert(texts(d.0) =~= b) by {
                assert(d.0.drop_last() =~= Seq::<StreamTokenView>::empty());
                assert(texts(d.0.drop_last()) == Seq::<char>::empty());
                assert(d.0.last() == StreamTokenView::Text(b));
            }
            assert forall|j: int| 0 <= j < r.0.len() implies #[trigger] r.0[j] is Text by {
                if j >= prev.0.len() {
                    assert(r.0[j] == d.0[j - prev.0.len()]);
                } else {
                    assert(r.0[j] == prev.0[j]);
                }
            }
        } else {
            assert(texts(d.0) =~= Seq::<char>::empty());
            assert(r.0 =~= prev.0);
        }
    }
    lemma_texts_append(r.0, flushed(r.1));
    if r.1.len() > 0 {
        assert(flushed(r.1).drop_last() =~= Seq::<StreamTokenView>::empty());
        assert(texts(flushed(r.1).drop_last()) == Seq::<char>::empty());
        assert(texts(flushed(r.1)) =~= r.1);
    } else {
        assert(texts(flushed(r.1)) =~= r.1);
    }
}

/// In a buffer whose first `k` characters hold no backquote, the first
/// closing fence at or after `i` (with `i <= k`) is the one at `k` when a
/// fence stands there after a line break.
proof fn lemma_closing_at(b: Seq<char>, i: int, k: int)
    requires
        0 <= i <= k,
        k + 3 <= b.len(),
        occurs_at(b, fence3(), k),
        k > 0 && b[k - 1] == '\n',
        forall|j: int| 0 <= j < k ==> b[j] != '`',
    ensures
        closing_from(b, i) == Some(k),
    decreases k - i,
{
    if i < k {
        assert(!occurs_at(b, fence3(), i)) by {
            if occurs_at(b, fence3(), i) {
                assert(b.subrange(i, i + 3)[0] == b[i]);
            }
        }
        lemma_closing_at(b, i + 1, k);
    }
}

/// An action block that arrives whole, its body free of backquotes, comes
/// out as one tool call that holds the body and its last line break, and
/// leaves nothing buffered outside any block.
pub proof fn law_whole_action_block_is_one_call(body: Seq<char>, due: bool)
    requires
        forall|j: int| 0 <= j < body.len() ==> body[j] != '`',
    ensures
        drain("```primeactions\n"@ + body + "\n```"@, BlockView::Outside, due) == (
            seq![StreamTokenView::ToolCall(body + "\n"@)],
            Seq::<char>::empty(),
            BlockView::Outside,
        ),
{
    reveal_strlit("```primeactions\n");
    reveal_strlit("\n```");
    reveal_strlit("\n");
    reveal_strlit("primeactions");
    reveal_strlit("primeactions\n");
    reveal_with_fuel(drain, 3);
    let head = "```primeactions\n"@;
    let tail = "\n```"@;
    let b = head + body + tail;
    assert(b.subrange(0, 3) =~= fence3());
    assert(find(b, fence3()) == Some(0int));
    let after = b.skip(3);
    assert(after =~= "primeactions\n"@ + body + tail);
    crate::text::lemma_next_char_at(after, '\n', 0, 12);
    let lang = trim(after.take(12));
    assert(after.take(12) =~= actions_lang());
    crate::text::lemma_trim_fixed(actions_lang());
    assert(lang == actions_lang());
    let inner = after.skip(13);
    assert(inner =~= body + tail);
    let k: int = (body.len() + 1) as int;
    assert(inner.subrange(k, k + 3) =~= fence3());
    lemma_closing_at(inner, 0, k as int);
    assert(inner.take(k as int) =~= body + "\n"@);
    assert(inner.skip(k + 3) =~= Seq::<char>::empty());
    let empty = Seq::<char>::empty();
    assert(find(empty, fence3()) is None);
    assert(!ends_with(empty, seq!['`']));
    assert(b.take(0) =~= Seq::<char>::empty());
}

impl View for StreamHandler {
    type V = (Seq<char>, BlockView);

    closed spec fn view(&self) -> (Seq<char>, BlockView) {
        (
            self.buffer@,
            match self.state {
                CodeBlockState::Outside => BlockView::Outside,
                CodeBlockState::InBlock(lang) => BlockView::InBlock(lang@),
            },
        )
    }
}

/// The first index where a fence stands at the start of the buffer or right
/// after a line break.
fn find_closing_marker(b: &Vec<char>) -> (r: Option<usize>)
    ensures
        r matches Some(i) ==> closing_from(b@, 0) == Some(i as int),
        r is None ==> closing_from(b@, 0) is None,
{
    let fence: Vec<char> = vec!['`', '`', '`'];
    assert(fence@ =~= fence3());
    let mut i: usize = 0;
    while i < b.len() && b.len() - i >= 3
        invariant
            i <= b.len(),
            fence@ == fence3(),
            closing_from(b@, 0) == closing_from(b@, i as int),
        decreases b.len() - i,
    {
        if matches_at(b, &fence, i) && (i == 0 || b[i - 1] == '\n') {
            return Some(i);
        }
        i = i + 1;
    }
    None
}

/// Whether the last character is a backquote.
fn ends_with_backquote(b: &Vec<char>) -> (r: bool)
    ensures
        r == ends_with(b@, seq!['`']),
{
    let r = b.len() > 0 && b[b.len() - 1] == '`';
    assert(r ==> b@.skip(b@.len() - 1) =~= seq!['`']);
    assert(ends_with(b@, seq!['`']) ==> b@.skip(b@.len() - 1)[0] == '`');
    r
}

impl StreamHandler {
    /// The time, in milliseconds, after which buffered text with no marker in
    /// sight is passed on.
    pub closed spec fn flush_interval_millis(&self) -> nat {
        self.flush_interval_ms as nat
    }

    /// A handler with an empty buffer, outside any code block, that passes
    /// held-back text on every 50 milliseconds.
    pub fn new() -> (h: Self)
        ensures
            h@.0 == Seq::<char>::empty(),
            h@.1 == BlockView::Outside,
            h.flush_interval_millis() == 50,
    {
        StreamHandler {
            buffer: Vec::new(),
            state: CodeBlockState::Outside,
            last_flush: now(),
            flush_interval_ms: FLUSH_INTERVAL_MILLIS,
        }
    }

    /// Whether the flush interval has passed since the last flush.
    fn should_flush(&self) -> bool {
        millis_since(&self.last_flush) >= self.flush_interval_ms as u128
    }

    /// Takes a streamed token and returns what can be shown now: text before
    /// and around code blocks, the opening and closing fences of ordinary
    /// code blocks, and the body of each complete `primeactions` block as a
    /// tool call. Text without a marker in sight is passed on only when the
    /// flush interval has passed, which the clock decides.
    pub fn process_token(&mut self, token: &str) -> (out: Vec<StreamToken>)
        ensures
            exists|due: bool|
                {
                    let d = #[trigger] drain(old(self)@.0 + token@, old(self)@.1, due);
                    token_views(out@) == d.0 && final(self)@ == (d.1, d.2)
                },
            final(self).flush_interval_millis() == old(self).flush_interval_millis(),
    {
        let due = self.should_flush();
        self.process_token_with(token, due)
    }

    /// `process_token` with the flush decision given: `flush_due` says
    /// whether the flush interval has passed.
    pub fn process_token_with(&mut self, token: &str, flush_due: bool) -> (out: Vec<StreamToken>)
        ensures
            token_views(out@) == drain(old(self)@.0 + token@, old(self)@.1, flush_due).0,
            final(self)@ == (
                drain(old(self)@.0 + token@, old(self)@.1, flush_due).1,
                drain(old(self)@.0 + token@, old(self)@.1, flush_due).2,
            ),
            final(self).flush_interval_millis() == old(self).flush_interval_millis(),
    {
        let t = chars_of(token);
        push_chars(&mut self.buffer, &t);
        let ghost d0 = drain(self@.0, self@.1, flush_due);
        let mut output: Vec<StreamToken> = Vec::new();
        let fence: Vec<char> = vec!['`', '`', '`'];
        assert(fence@ =~= fence3());
        assert(token_views(output@) + d0.0 =~= d0.0);
        loop
            invariant
                fence@ == fence3(),
                self.flush_interval_ms == old(self).flush_interval_ms,
                d0.0 == token_views(output@) + drain(self@.0, self@.1, flush_due).0,
                d0.1 == drain(self@.0, self@.1, flush_due).1,
                d0.2 == drain(self@.0, self@.1, flush_due).2,
            ensures
                d0.0 == token_views(output@),
                d0.1 == self@.0,
                d0.2 == self@.1,
            decreases self.buffer.len(),
        {
            let ghost cur = self@;
            let lang_opt: Option<Vec<char>> = match &self.state {
                CodeBlockState::Outside => None,
                CodeBlockState::InBlock(l) => Some(copy_chars(l)),
            };
            match lang_opt {
                None => {
                    match find_chars(&self.buffer, &fence) {
                        Some(idx) => {
                            let after = slice_chars(&self.buffer, idx + 3, self.buffer.len());
                            assert(after@ =~= cur.0.skip(idx + 3));
                            let nl = next_char_at(&after, '\n', 0);
                            if nl < after.len() {
                                let lang_raw = slice_chars(&after, 0, nl);
                                assert(lang_raw@ =~= after@.take(nl as int));
                                let lang = trim_chars(&lang_raw);
                                let before = slice_chars(&self.buffer, 0, idx);
                                assert(before@ =~= cur.0.take(idx as int));
                                let rest = slice_chars(&after, nl + 1, after.len());
                                assert(rest@ =~= after@.skip(nl + 1));
                                let ghost emitted_before = token_views(output@);
                                let ghost out1: Seq<StreamTokenView> = if before@.len() > 0 {
                                    seq![StreamTokenView::Text(before@)]
                                } else {
                                    Seq::empty()
                                };
                                let ghost out2: Seq<StreamTokenView> = if lang@ != actions_lang() {
                                    seq![StreamTokenView::Text(fence3() + lang@ + seq!['\n'])]
                                } else {
                                    Seq::empty()
                                };
                                if before.len() > 0 {
                                    let tok = StreamToken::Text(string_of(&before));
                                    proof {
                                        lemma_token_views_push(output@, tok);
                                    }
                                    output.push(tok);
                                }
                                assert(token_views(output@) =~= emitted_before + out1);
                                let is_actions = eq_str(&lang, "primeactions");
                                if !is_actions {
                                    let mut marker = copy_chars(&fence);
                                    push_chars(&mut marker, &lang);
                                    marker.push('\n');
                                    assert(marker@ =~= fence3() + lang@ + seq!['\n']);
                                    let tok = StreamToken::Text(string_of(&marker));
                                    proof {
                                        lemma_token_views_push(output@, tok);
                                    }
                                    output.push(tok);
                                }
                                assert(token_views(output@) =~= emitted_before + out1 + out2);
                                let ghost emitted = out1 + out2;
                                assert(cur.1 == BlockView::Outside);
                                assert(find(cur.0, fence3()) == Some(idx as int));
                                let ghost lang_v = lang@;
                                self.state = CodeBlockState::InBlock(lang);
                                self.buffer = rest;
                                assert(self@.1 == BlockView::InBlock(lang_v));
                                assert(drain(cur.0, cur.1, flush_due).0 =~= out1 + out2 + drain(
                                    rest@,
                                    BlockView::InBlock(lang_v),
                                    flush_due,
                                ).0);
                                assert(drain(cur.0, cur.1, flush_due).0 =~= emitted + drain(
                                    self@.0,
                                    self@.1,
                                    flush_due,
                                ).0);
                                continue;
                            } else {
                                break;
                            }
                        },
                        None => {
                            if ends_with_backquote(&self.buffer) {
                                break;
                            }
                            if flush_due && self.buffer.len() > 0 {
                                let tok = StreamToken::Text(string_of(&self.buffer));
                                proof {
                                    lemma_token_views_push(output@, tok);
                                }
                                output.push(tok);
                                self.buffer = Vec::new();
                                self.last_flush = now();
                            }
                            break;
                        },
                    }
                },
                Some(lang) => {
                    assert(cur.1 == BlockView::InBlock(lang@));
                    match find_closing_marker(&self.buffer) {
                        Some(idx) => {
                            proof {
                                lemma_closing_from_some(cur.0, 0);
                            }
                            let content = slice_chars(&self.buffer, 0, idx);
                            assert(content@ =~= cur.0.take(idx as int));
                            let remaining = slice_chars(&self.buffer, idx + 3, self.buffer.len());
                            assert(remaining@ =~= cur.0.skip(idx + 3));
                            let ghost emitted_before = token_views(output@);
                            if eq_str(&lang, "primeactions") {
                                let tok = StreamToken::ToolCall(string_of(&content));
                                proof {
                                    lemma_token_views_push(output@, tok);
                                }
                                output.push(tok);
                            } else {
                                let tok = StreamToken::Text(string_of(&content));
                                proof {
                                    lemma_token_views_push(output@, tok);
                                }
                                output.push(tok);
                                let tok2 = StreamToken::Text(string_of(&fence));
                                proof {
                                    lemma_token_views_push(output@, tok2);
                                }
                                output.push(tok2);
                            }
                            let ghost emitted = token_views(output@).skip(
                                emitted_before.len() as int,
                            );
                            assert(token_views(output@) =~= emitted_before + emitted);
                            self.buffer = remaining;
                            self.state = CodeBlockState::Outside;
                            assert(drain(cur.0, cur.1, flush_due).0 =~= emitted + drain(
                                self@.0,
                                self@.1,
                                flush_due,
                            ).0);
                            continue;
                        },
                        None => {
                            if ends_with_backquote(&self.buffer) {
                                break;
                            }
                            if !eq_str(&lang, "primeactions") && flush_due && self.buffer.len()
                                > 0 {
                                let tok = StreamToken::Text(string_of(&self.buffer));
                                proof {
                                    lemma_token_views_push(output@, tok);
                                }
                                output.push(tok);
                                self.buffer = Vec::new();
                                self.last_flush = now();
                            }
                            break;
                        },
                    }
                },
            }
        }
        output
    }

    /// Hands out whatever is still buffered, as text, and empties the
    /// buffer; the block state stays as it is.
    pub fn flush(&mut self) -> (r: Option<StreamToken>)
        ensures
            old(self)@.0.len() > 0 ==> (r matches Some(t) && t@ == StreamTokenView::Text(
                old(self)@.0,
            )) && final(self)@ == (Seq::<char>::empty(), old(self)@.1),
            old(self)@.0.len() == 0 ==> r is None && final(self)@ == old(self)@,
            final(self).flush_interval_millis() == old(self).flush_interval_millis(),
    {
        if self.buffer.len() > 0 {
            let content = string_of(&self.buffer);
            self.buffer = Vec::new();
            Some(StreamToken::Text(content))
        } else {
            None
        }
    }

    /// Whether a `primeactions` block is open and being held back.
    pub fn is_buffering_primeactions(&self) -> (r: bool)
        ensures
            r == (self@.1 == BlockView::InBlock(actions_lang())),
    {
        match &self.state {
            CodeBlockState::InBlock(lang) => eq_str(lang, "primeactions"),
            CodeBlockState::Outside => false,
        }
    }
}

impl Default for StreamHandler {
    fn default() -> (h: Self)
        ensures
            h@.0 == Seq::<char>::empty(),
            h@.1 == BlockView::Outside,
    {
        Self::new()
    }
}

proof fn lemma_token_views_push(v: Seq<StreamToken>, t: StreamToken)
    ensures
        token_views(v.push(t)) == token_views(v).push(t@),
{
    assert(token_views(v.push(t)) =~= token_views(v).push(t@));
}

} // verus!
