//! Content-stream decoder: turns a page's decoded text operations into an
//! ordered text buffer. Text-showing operations append their decoded
//! string; positioning adjustments inside adjusted draws become
//! word-separating spaces; explicit text newlines become line breaks; and
//! a text-position move whose vertical displacement exceeds a threshold
//! becomes a paragraph break — the only proxy for paragraph structure.

use vstd::prelude::*;

use vstd::string::StringExecFns;

use crate::chars::push_char;
use crate::models::{AdjustedItem, PageText, TextOp};
use crate::normalize::{normalize_spec, normalize_vec};
use crate::pipeline::PdfProcessor;

verus! {

/// Vertical displacement, in whole text-space units, beyond which a text
/// move is read as a paragraph break.
pub const VERTICAL_BREAK_THRESHOLD: i64 = 12;

/// Text contributed by the items of an adjusted text-showing operation.
pub open spec fn decoded_adjusted(items: Seq<AdjustedItem>) -> Seq<char>
    decreases items.len(),
{
    if items.len() == 0 {
        Seq::empty()
    } else {
        (match items[0] {
            AdjustedItem::Run(s) => s@,
            AdjustedItem::Shift => seq![' '],
        }) + decoded_adjusted(items.drop_first())
    }
}

/// Text contributed by one operation.
pub open spec fn decoded_op(op: TextOp) -> Seq<char> {
    match op {
        TextOp::Draw(s) => s@,
        TextOp::DrawAdjusted(items) => decoded_adjusted(items@),
        TextOp::Newline => seq!['\n'],
        TextOp::MoveText { dy } => if dy > VERTICAL_BREAK_THRESHOLD || dy
            < -VERTICAL_BREAK_THRESHOLD {
            seq!['\n', '\n']
        } else {
            Seq::empty()
        },
    }
}

/// The text buffer of a whole operation sequence.
pub open spec fn decoded_ops(ops: Seq<TextOp>) -> Seq<char>
    decreases ops.len(),
{
    if ops.len() == 0 {
        Seq::empty()
    } else {
        decoded_op(ops[0]) + decoded_ops(ops.drop_first())
    }
}

/// The pages kept from a document: each non-empty page's raw text paired
/// with its 1-based page number; pages whose canonical text is empty
/// contribute nothing.
pub open spec fn page_texts_rec(pp: Seq<Seq<TextOp>>, no: int) -> Seq<(int, Seq<char>)>
    decreases pp.len(),
{
    if pp.len() == 0 {
        Seq::empty()
    } else {
        let raw = decoded_ops(pp[0]);
        let rest = page_texts_rec(pp.drop_first(), no + 1);
        if normalize_spec(raw).len() > 0 {
            seq![(no, raw)] + rest
        } else {
            rest
        }
    }
}

/// The kept pages of a document, numbering from 1.
pub open spec fn page_texts_spec(pp: Seq<Seq<TextOp>>) -> Seq<(int, Seq<char>)> {
    page_texts_rec(pp, 1)
}

impl PdfProcessor {
    /// Appends the text of one page's operation sequence to `text`.
    pub fn extract_text_from_content(ops: &Vec<TextOp>, text: &mut String)
        ensures
            final(text)@ == old(text)@ + decoded_ops(ops@),
    {
        let ghost start = old(text)@;
        let mut i: usize = 0;
        assert(ops@.skip(0) =~= ops@);
        while i < ops.len()
            invariant
                i <= ops.len(),
                text@ + decoded_ops(ops@.skip(i as int)) == start + decoded_ops(ops@),
            decreases ops.len() - i,
        {
            assert(ops@.skip(i as int)[0] == ops@[i as int]);
            assert(ops@.skip(i as int).drop_first() =~= ops@.skip(i as int + 1));
            let ghost pre = text@;
            match &ops[i] {
                TextOp::Draw(s) => {
                    text.append(s.as_str());
                },
                TextOp::DrawAdjusted(items) => {
                    let mut j: usize = 0;
                    assert(items@.skip(0) =~= items@);
                    while j < items.len()
                        invariant
                            j <= items.len(),
                            text@ + decoded_adjusted(items@.skip(j as int)) == pre
                                + decoded_adjusted(items@),
                        decreases items.len() - j,
                    {
                        assert(items@.skip(j as int)[0] == items@[j as int]);
                        assert(items@.skip(j as int).drop_first() =~= items@.skip(j as int + 1));
                        match &items[j] {
                            AdjustedItem::Run(s) => {
                                text.append(s.as_str());
                            },
                            AdjustedItem::Shift => {
                                push_char(text, ' ');
                            },
                        }
                        proof {
                            assert(text@ + decoded_adjusted(items@.skip(j as int + 1)) =~= pre
                                + decoded_adjusted(items@));
                        }
                        j = j + 1;
                    }
                    assert(items@.skip(items@.len() as int) =~= Seq::<AdjustedItem>::empty());
                    assert(text@ =~= pre + decoded_adjusted(items@));
                },
                TextOp::Newline => {
                    push_char(text, '\n');
                },
                TextOp::MoveText { dy } => {
                    if *dy > VERTICAL_BREAK_THRESHOLD || *dy < -VERTICAL_BREAK_THRESHOLD {
                        push_char(text, '\n');
                        push_char(text, '\n');
                    }
                },
            }
            proof {
                assert(text@ + decoded_ops(ops@.skip(i as int + 1)) =~= start + decoded_ops(ops@));
            }
            i = i + 1;
        }
        assert(ops@.skip(ops@.len() as int) =~= Seq::<TextOp>::empty());
        assert(text@ =~= start + decoded_ops(ops@));
    }

    /// Decodes a document's pages and keeps those with non-empty canonical
    /// text, under their original 1-based page numbers.
    pub fn decode_document_pages(pages: &Vec<Vec<TextOp>>) -> (r: Vec<PageText>)
        requires
            pages@.len() <= u32::MAX,
        ensures
            r@.map_values(|p: PageText| (p.page_number as int, p.text@)) == page_texts_spec(
                pages@.map_values(|v: Vec<TextOp>| v@),
            ),
    {
        let ghost pp = pages@.map_values(|v: Vec<TextOp>| v@);
        let mut r: Vec<PageText> = Vec::new();
        let mut i: usize = 0;
        assert(pp.skip(0) =~= pp);
        assert(r@.map_values(|p: PageText| (p.page_number as int, p.text@)) =~= Seq::<
            (int, Seq<char>),
        >::empty());
        while i < pages.len()
            invariant
                i <= pages.len(),
                pages@.len() <= u32::MAX,
                pp == pages@.map_values(|v: Vec<TextOp>| v@),
                r@.map_values(|p: PageText| (p.page_number as int, p.text@)) + page_texts_rec(
                    pp.skip(i as int),
                    i as int + 1,
                ) == page_texts_spec(pp),
            decreases pages.len() - i,
        {
            assert(pp.skip(i as int)[0] == pp[i as int]);
            assert(pp.skip(i as int).drop_first() =~= pp.skip(i as int + 1));
            let mut raw = String::new();
            Self::extract_text_from_content(&pages[i], &mut raw);
            assert(raw@ =~= decoded_ops(pp[i as int]));
            let rc = crate::chars::chars_of(raw.as_str());
            let cleaned = normalize_vec(&rc);
            let ghost rv = r@.map_values(|p: PageText| (p.page_number as int, p.text@));
            if cleaned.len() > 0 {
                let page = PageText { page_number: (i as u32) + 1, text: raw };
                r.push(page);
                assert(r@.map_values(|p: PageText| (p.page_number as int, p.text@)) =~= rv.push(
                    (i as int + 1, decoded_ops(pp[i as int])),
                ));
                assert(rv.push((i as int + 1, decoded_ops(pp[i as int]))) + page_texts_rec(
                    pp.skip(i as int + 1),
                    i as int + 2,
                ) =~= rv + page_texts_rec(pp.skip(i as int), i as int + 1));
            } else {
                assert(rv + page_texts_rec(pp.skip(i as int + 1), i as int + 2) =~= rv
                    + page_texts_rec(pp.skip(i as int), i as int + 1));
            }
            i = i + 1;
        }
        assert(pp.skip(pages@.len() as int) =~= Seq::<Seq<TextOp>>::empty());
        r
    }
}

} // verus!
