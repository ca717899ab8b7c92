//! Turning parsed markdown into the styled lines of a page: each block of
//! the document gives its lines, each word a span with the look of its
//! kind.

use vstd::prelude::*;

verus! {

/// What a word of the parsed document is.
#[derive(Debug, Clone, Copy, PartialEq, Eq, Structural)]
pub enum WordKind {
    Normal,
    White,
    Bold,
    Italic,
    BoldItalic,
    Code,
    CodeBlock,
    Link,
    FootnoteInline,
    Strikethrough,
    ListMarker,
    Other,
}

/// What a block of the parsed document is.
#[derive(Debug, Clone, Copy, PartialEq, Eq, Structural)]
pub enum BlockKind {
    Heading,
    Paragraph,
    Quote,
    Task,
    List,
    CodeBlock,
    LineBreak,
    HorizontalSeparator,
    Image,
    Other,
}

/// How a span looks.
#[derive(Debug, Clone, Copy, PartialEq, Eq, Structural)]
pub enum SpanLook {
    /// Ordinary text.
    Body,
    /// Ordinary text of a heading.
    HeadingText,
    Bold,
    Italic,
    BoldItalic,
    /// Inline code.
    Code,
    /// A word of a code block, in the color the highlighter gave it.
    CodeBlock,
    Link,
    Strikethrough,
    ListMarker,
    /// A horizontal rule.
    Separator,
}

/// How a whole line looks.
#[derive(Debug, Clone, Copy, PartialEq, Eq, Structural)]
pub enum LineLook {
    Plain,
    Heading,
}

pub struct MdWord {
    pub kind: WordKind,
    pub content: String,
}

/// A block of the parsed document: its kind, the heading level its meta
/// words give (headings only), and its lines of words.
pub struct MdBlock {
    pub kind: BlockKind,
    pub heading_level: Option<u8>,
    pub lines: Vec<Vec<MdWord>>,
}

pub struct StyledSpan {
    pub content: String,
    pub look: SpanLook,
}

pub struct StyledLine {
    pub spans: Vec<StyledSpan>,
    pub look: LineLook,
}

/// The look of a word of kind `kind` in a heading of level `heading_level`
/// (0 outside headings).
pub open spec fn word_look(kind: WordKind, heading_level: int) -> SpanLook {
    match kind {
        WordKind::Bold => SpanLook::Bold,
        WordKind::Italic => SpanLook::Italic,
        WordKind::BoldItalic => SpanLook::BoldItalic,
        WordKind::Code => SpanLook::Code,
        WordKind::CodeBlock => SpanLook::CodeBlock,
        WordKind::Link | WordKind::FootnoteInline => SpanLook::Link,
        WordKind::Strikethrough => SpanLook::Strikethrough,
        WordKind::ListMarker => SpanLook::ListMarker,
        WordKind::Normal | WordKind::White => if heading_level > 0 {
            SpanLook::HeadingText
        } else {
            SpanLook::Body
        },
        WordKind::Other => SpanLook::Body,
    }
}

/// A word as a value: its kind and its text.
pub open spec fn word_view(w: MdWord) -> (WordKind, Seq<char>) {
    (w.kind, w.content@)
}

/// A span as a value: its text and its look.
pub open spec fn span_view(s: StyledSpan) -> (Seq<char>, SpanLook) {
    (s.content@, s.look)
}

pub open spec fn line_view(l: StyledLine) -> (Seq<(Seq<char>, SpanLook)>, LineLook) {
    (l.spans@.map_values(|s: StyledSpan| span_view(s)), l.look)
}

pub open spec fn lines_view(v: Seq<StyledLine>) -> Seq<(Seq<(Seq<char>, SpanLook)>, LineLook)> {
    v.map_values(|l: StyledLine| line_view(l))
}

/// The block's lines of words, as values.
pub open spec fn block_words(b: MdBlock) -> Seq<Seq<(WordKind, Seq<char>)>> {
    b.lines@.map_values(|l: Vec<MdWord>| l@.map_values(|w: MdWord| word_view(w)))
}

/// The spans of a line of words, each word's look at heading level `level`.
pub open spec fn word_spans(words: Seq<(WordKind, Seq<char>)>, level: int) -> Seq<(Seq<char>, SpanLook)> {
    words.map_values(|w: (WordKind, Seq<char>)| (w.1, word_look(w.0, level)))
}

/// The lines a block gives at width `width`: a heading gives one line of
/// all its words (none when it has no words); a line break an empty line; a
/// horizontal rule a line of `─` four columns short of the width; an image
/// nothing; any other block one line per line of words.
pub open spec fn block_lines(kind: BlockKind, level: Option<u8>, words: Seq<Seq<(WordKind, Seq<char>)>>, width: int) -> Seq<
    (Seq<(Seq<char>, SpanLook)>, LineLook),
> {
    match kind {
        BlockKind::Heading => {
            let l = match level {
                Some(v) => v as int,
                None => 1,
            };
            let spans = word_spans(words.flatten(), l);
            if spans.len() > 0 {
                seq![(spans, LineLook::Heading)]
            } else {
                Seq::empty()
            }
        },
        BlockKind::LineBreak => seq![(seq![(Seq::empty(), SpanLook::Body)], LineLook::Plain)],
        BlockKind::HorizontalSeparator => seq![
            (
                seq![
                    (
                        Seq::new(
                            (if width >= 4 {
                                width - 4
                            } else {
                                0
                            }) as nat,
                            |i: int| '─',
                        ),
                        SpanLook::Separator,
                    ),
                ],
                LineLook::Plain,
            ),
        ],
        BlockKind::Image => Seq::empty(),
        _ => words.map_values(|ws: Seq<(WordKind, Seq<char>)>| (word_spans(ws, 0), LineLook::Plain)),
    }
}

/// The lines of a document's blocks, one block after the other.
pub open spec fn document_lines(blocks: Seq<MdBlock>, width: int) -> Seq<(Seq<(Seq<char>, SpanLook)>, LineLook)>
    decreases blocks.len(),
{
    if blocks.len() == 0 {
        Seq::empty()
    } else {
        let b = blocks.last();
        document_lines(blocks.drop_last(), width) + block_lines(b.kind, b.heading_level, block_words(b), width)
    }
}

/// The span of a word (see `word_look`).
pub fn md_word_to_span(word: &MdWord, heading_level: u8) -> (s: StyledSpan)
    ensures
        span_view(s) == (word.content@, word_look(word.kind, heading_level as int)),
{
    let look = match word.kind {
        WordKind::Bold => SpanLook::Bold,
        WordKind::Italic => SpanLook::Italic,
        WordKind::BoldItalic => SpanLook::BoldItalic,
        WordKind::Code => SpanLook::Code,
        WordKind::CodeBlock => SpanLook::CodeBlock,
        WordKind::Link | WordKind::FootnoteInline => SpanLook::Link,
        WordKind::Strikethrough => SpanLook::Strikethrough,
        WordKind::ListMarker => SpanLook::ListMarker,
        WordKind::Normal | WordKind::White => if heading_level > 0 {
            SpanLook::HeadingText
        } else {
            SpanLook::Body
        },
        WordKind::Other => SpanLook::Body,
    };
    StyledSpan { content: word.content.clone(), look }
}

/// The spans of a line of words at heading level `level`, appended to
/// `out`.
fn push_word_spans(out: &mut Vec<StyledSpan>, words: &Vec<MdWord>, level: u8)
    ensures
        final(out)@.map_values(|s: StyledSpan| span_view(s)) == old(out)@.map_values(|s: StyledSpan| span_view(s))
            + word_spans(words@.map_values(|w: MdWord| word_view(w)), level as int),
{
    let ghost o0 = out@.map_values(|s: StyledSpan| span_view(s));
    let ghost wv = words@.map_values(|w: MdWord| word_view(w));
    let mut i: usize = 0;
    proof {
        assert(word_spans(wv.take(0), level as int) =~= Seq::<(Seq<char>, SpanLook)>::empty());
        assert(o0 + Seq::<(Seq<char>, SpanLook)>::empty() =~= o0);
    }
    while i < words.len()
        invariant
            i <= words@.len(),
            wv == words@.map_values(|w: MdWord| word_view(w)),
            out@.map_values(|s: StyledSpan| span_view(s)) == o0 + word_spans(wv.take(i as int), level as int),
        decreases words@.len() - i,
    {
        let ghost before = out@.map_values(|s: StyledSpan| span_view(s));
        let span = md_word_to_span(&words[i], level);
        out.push(span);
        proof {
            assert(out@.map_values(|s: StyledSpan| span_view(s)) =~= before.push(span_view(span)));
            assert(word_spans(wv.take(i as int + 1), level as int) =~= word_spans(wv.take(i as int), level as int).push(
                span_view(span),
            ));
        }
        i = i + 1;
    }
    proof {
        assert(wv.take(i as int) =~= wv);
    }
}

/// The lines of one block (see `block_lines`), appended to `out`.
fn push_block_lines(out: &mut Vec<StyledLine>, block: &MdBlock, width: u16)
    ensures
        lines_view(final(out)@) == lines_view(old(out)@) + block_lines(
            block.kind,
            block.heading_level,
            block_words(*block),
            width as int,
        ),
{
    let ghost o0 = lines_view(out@);
    let ghost words = block_words(*block);
    match block.kind {
        BlockKind::Heading => {
            let level: u8 = match block.heading_level {
                Some(v) => v,
                None => 1,
            };
            let mut spans: Vec<StyledSpan> = Vec::new();
            let mut k: usize = 0;
            proof {
                assert(spans@.map_values(|s: StyledSpan| span_view(s)) =~= word_spans(words.take(0).flatten(), level as int));
            }
            while k < block.lines.len()
                invariant
                    k <= block.lines@.len(),
                    words == block_words(*block),
                    spans@.map_values(|s: StyledSpan| span_view(s)) == word_spans(words.take(k as int).flatten(), level as int),
                decreases block.lines@.len() - k,
            {
                push_word_spans(&mut spans, &block.lines[k], level);
                proof {
                    let wk = block.lines@[k as int]@.map_values(|w: MdWord| word_view(w));
                    assert(words.take(k as int + 1) =~= words.take(k as int).push(wk));
                    words.take(k as int).lemma_flatten_push(wk);
                    assert(word_spans(words.take(k as int).flatten() + wk, level as int) =~= word_spans(
                        words.take(k as int).flatten(),
                        level as int,
                    ) + word_spans(wk, level as int));
                }
                k = k + 1;
            }
            proof {
                assert(words.take(k as int) =~= words);
            }
            if spans.len() > 0 {
                let ghost sv = spans@.map_values(|s: StyledSpan| span_view(s));
                out.push(StyledLine { spans, look: LineLook::Heading });
                proof {
                    assert(lines_view(out@) =~= o0.push((sv, LineLook::Heading)));
                }
            } else {
                proof {
                    assert(o0 + Seq::<(Seq<(Seq<char>, SpanLook)>, LineLook)>::empty() =~= o0);
                }
            }
        },
        BlockKind::LineBreak => {
            let spans = vec![StyledSpan { content: String::new(), look: SpanLook::Body }];
            out.push(StyledLine { spans, look: LineLook::Plain });
            proof {
                assert(lines_view(out@) =~~= o0 + seq![(seq![(Seq::<char>::empty(), SpanLook::Body)], LineLook::Plain)]);
            }
        },
        BlockKind::HorizontalSeparator => {
            let n = width.saturating_sub(4);
            let mut rule = String::new();
            let mut i: u16 = 0;
            while i < n
                invariant
                    i <= n,
                    rule@ == Seq::new(i as nat, |j: int| '─'),
                decreases n - i,
            {
                rule.append("─");
                i = i + 1;
                proof {
                    reveal_strlit("─");
                    assert(rule@ =~= Seq::new(i as nat, |j: int| '─'));
                }
            }
            let spans = vec![StyledSpan { content: rule, look: SpanLook::Separator }];
            out.push(StyledLine { spans, look: LineLook::Plain });
            proof {
                assert(lines_view(out@) =~~= o0 + block_lines(block.kind, block.heading_level, words, width as int));
            }
        },
        BlockKind::Image => {
            proof {
                assert(o0 + Seq::<(Seq<(Seq<char>, SpanLook)>, LineLook)>::empty() =~= o0);
            }
        },
        _ => {
            let mut k: usize = 0;
            let ghost f = |ws: Seq<(WordKind, Seq<char>)>| (word_spans(ws, 0), LineLook::Plain);
            proof {
                assert(o0 + words.take(0).map_values(f) =~= o0);
            }
            while k < block.lines.len()
                invariant
                    k <= block.lines@.len(),
                    words == block_words(*block),
                    f == (|ws: Seq<(WordKind, Seq<char>)>| (word_spans(ws, 0), LineLook::Plain)),
                    lines_view(out@) == o0 + words.take(k as int).map_values(f),
                decreases block.lines@.len() - k,
            {
                let mut spans: Vec<StyledSpan> = Vec::new();
                push_word_spans(&mut spans, &block.lines[k], 0);
                let ghost before = lines_view(out@);
                let ghost sv = spans@.map_values(|s: StyledSpan| span_view(s));
                out.push(StyledLine { spans, look: LineLook::Plain });
                proof {
                    let wk = block.lines@[k as int]@.map_values(|w: MdWord| word_view(w));
                    assert(words[k as int] == wk);
                    assert(sv =~= word_spans(wk, 0));
                    assert(lines_view(out@) =~= before.push((sv, LineLook::Plain)));
                    assert(words.take(k as int + 1).map_values(f) =~= words.take(k as int).map_values(f).push(f(wk)));
                }
                k = k + 1;
            }
            proof {
                assert(words.take(k as int) =~= words);
            }
        },
    }
}

/// The styled lines of a parsed document at width `width` (see
/// `document_lines`).
pub fn md_to_lines(blocks: &Vec<MdBlock>, width: u16) -> (lines: Vec<StyledLine>)
    ensures
        lines_view(lines@) == document_lines(blocks@, width as int),
{
    let mut lines: Vec<StyledLine> = Vec::new();
    let mut i: usize = 0;
    proof {
        assert(lines_view(lines@) =~= document_lines(blocks@.take(0), width as int));
    }
    while i < blocks.len()
        invariant
            i <= blocks@.len(),
            lines_view(lines@) == document_lines(blocks@.take(i as int), width as int),
        decreases blocks@.len() - i,
    {
        push_block_lines(&mut lines, &blocks[i], width);
        proof {
            assert(blocks@.take(i as int + 1).drop_last() =~= blocks@.take(i as int));
            assert(blocks@.take(i as int + 1).last() == blocks@[i as int]);
        }
        i = i + 1;
    }
    proof {
        assert(blocks@.take(i as int) =~= blocks@);
    }
    lines
}


/// A document's lines are its blocks' lines, one block after the other: two
/// runs of blocks give the lines of the first and then those of the second.
pub proof fn lemma_document_lines_concat(b1: Seq<MdBlock>, b2: Seq<MdBlock>, width: int)
    ensures
        document_lines(b1 + b2, width) == document_lines(b1, width) + document_lines(b2, width),
    decreases b2.len(),
{
    if b2.len() == 0 {
        assert(b1 + b2 =~= b1);
        assert(document_lines(b1, width) + document_lines(b2, width) =~= document_lines(b1, width));
    } else {
        lemma_document_lines_concat(b1, b2.drop_last(), width);
        assert((b1 + b2).drop_last() =~= b1 + b2.drop_last());
        assert((b1 + b2).last() == b2.last());
        let l = b2.last();
        let bl = block_lines(l.kind, l.heading_level, block_words(l), width);
        assert(document_lines(b1, width) + document_lines(b2.drop_last(), width) + bl =~= document_lines(
            b1,
            width,
        ) + (document_lines(b2.drop_last(), width) + bl));
    }
}

/// A text block (a paragraph, quote, task, list, code block or other)
/// gives one plain line per line of words, and each line shows its words'
/// texts in order, each as one span; a bold word shows bold, a code word
/// as code.
pub proof fn lemma_text_block_keeps_words(
    kind: BlockKind,
    level: Option<u8>,
    words: Seq<Seq<(WordKind, Seq<char>)>>,
    width: int,
    i: int,
    j: int,
)
    requires
        kind != BlockKind::Heading,
        kind != BlockKind::LineBreak,
        kind != BlockKind::HorizontalSeparator,
        kind != BlockKind::Image,
        0 <= i < words.len(),
        0 <= j < words[i].len(),
    ensures
        block_lines(kind, level, words, width).len() == words.len(),
        block_lines(kind, level, words, width)[i].1 == LineLook::Plain,
        block_lines(kind, level, words, width)[i].0.len() == words[i].len(),
        block_lines(kind, level, words, width)[i].0[j].0 == words[i][j].1,
        words[i][j].0 == WordKind::Bold ==> block_lines(kind, level, words, width)[i].0[j].1 == SpanLook::Bold,
        words[i][j].0 == WordKind::Code ==> block_lines(kind, level, words, width)[i].0[j].1 == SpanLook::Code,
        words[i][j].0 == WordKind::Normal ==> block_lines(kind, level, words, width)[i].0[j].1 == SpanLook::Body,
{
}

/// A heading with words gives one heading line showing all its words in
/// order, its ordinary words as heading text.
pub proof fn lemma_heading_one_line(level: Option<u8>, words: Seq<Seq<(WordKind, Seq<char>)>>, width: int)
    requires
        words.flatten().len() > 0,
        level matches Some(v) ==> v >= 1,
    ensures
        block_lines(BlockKind::Heading, level, words, width).len() == 1,
        block_lines(BlockKind::Heading, level, words, width)[0].1 == LineLook::Heading,
        block_lines(BlockKind::Heading, level, words, width)[0].0.len() == words.flatten().len(),
        forall|k: int|
            0 <= k < words.flatten().len() ==> (#[trigger] block_lines(
                BlockKind::Heading,
                level,
                words,
                width,
            )[0].0[k]).0 == words.flatten()[k].1 && (words.flatten()[k].0 == WordKind::Normal
                ==> block_lines(BlockKind::Heading, level, words, width)[0].0[k].1 == SpanLook::HeadingText),
{
}

} // verus!
