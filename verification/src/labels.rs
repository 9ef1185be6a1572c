//! The label table: an ordered list of label names read from raw
//! label-list text, one label per line, indexed by a record's label byte.

use vstd::prelude::*;

verus! {

/// Byte value of the line feed that terminates a label-list line.
pub const LINE_FEED: u8 = 10;

/// Byte value of the carriage return, stripped wherever it occurs.
pub const CARRIAGE_RETURN: u8 = 13;

/// The entries obtained from `s` by dropping every carriage-return byte
/// and splitting on line feeds. A text without a line feed is a single
/// entry, so the result always has at least one entry; a trailing line
/// feed leaves a final empty entry.
pub open spec fn label_entries(s: Seq<u8>) -> Seq<Seq<u8>>
    decreases s.len(),
{
    if s.len() == 0 {
        seq![Seq::<u8>::empty()]
    } else if s[0] == LINE_FEED {
        seq![Seq::<u8>::empty()] + label_entries(s.skip(1))
    } else if s[0] == CARRIAGE_RETURN {
        label_entries(s.skip(1))
    } else {
        let rest = label_entries(s.skip(1));
        seq![seq![s[0]] + rest[0]] + rest.skip(1)
    }
}

/// The label table read from raw label-list text: the entries of the
/// text, except that the empty entry produced by a trailing terminator
/// is dropped. The label with byte value `i` is the table's entry `i`.
pub open spec fn label_table(s: Seq<u8>) -> Seq<Seq<u8>> {
    let entries = label_entries(s);
    if entries.last().len() == 0 {
        entries.drop_last()
    } else {
        entries
    }
}

/// Splitting always yields at least one entry.
pub proof fn lemma_label_entries_len(s: Seq<u8>)
    ensures
        label_entries(s).len() >= 1,
    decreases s.len(),
{
    if s.len() == 0 {
    } else {
        lemma_label_entries_len(s.skip(1));
    }
}

/// Parse raw label-list text into the ordered label table.
pub fn parse_labels(text: &Vec<u8>) -> (labels: Vec<Vec<u8>>)
    ensures
        labels.deep_view() == label_table(text@),
{
    let mut cur: Vec<u8> = Vec::new();
    let mut rest: Vec<Vec<u8>> = Vec::new();
    let mut i: usize = text.len();
    proof {
        assert(text@.skip(i as int) =~= Seq::<u8>::empty());
        assert(seq![cur@] + rest.deep_view() =~~= label_entries(text@.skip(i as int)));
    }
    while i > 0
        invariant
            i <= text@.len(),
            seq![cur@] + rest.deep_view() == label_entries(text@.skip(i as int)),
        decreases i,
    {
        i = i - 1;
        let b = text[i];
        proof {
            assert(text@.skip(i as int)[0] == b);
            assert(text@.skip(i as int).skip(1) =~= text@.skip(i as int + 1));
            lemma_label_entries_len(text@.skip(i as int + 1));
        }
        let ghost prev_cur = cur@;
        let ghost prev_rest = rest.deep_view();
        if b == LINE_FEED {
            rest.insert(0, cur);
            cur = Vec::new();
            proof {
                assert(rest.deep_view() =~~= seq![prev_cur] + prev_rest);
                assert(seq![cur@] + rest.deep_view() =~~= label_entries(text@.skip(i as int)));
            }
        } else if b == CARRIAGE_RETURN {
            proof {
                assert(seq![cur@] + rest.deep_view() =~~= label_entries(text@.skip(i as int)));
            }
        } else {
            cur.insert(0, b);
            proof {
                let entries = label_entries(text@.skip(i as int));
                assert(cur@ =~= seq![b] + prev_cur);
                assert(entries[0] == seq![b] + (seq![prev_cur] + prev_rest)[0]);
                assert(entries.skip(1) =~= prev_rest);
                assert(seq![cur@] + rest.deep_view() =~~= entries);
            }
        }
    }
    let mut entries: Vec<Vec<u8>> = Vec::new();
    entries.push(cur);
    entries.append(&mut rest);
    proof {
        assert(text@.skip(0) =~= text@);
        assert(entries.deep_view() =~~= label_entries(text@));
    }
    let last = entries.len() - 1;
    if entries[last].len() == 0 {
        entries.pop();
        proof {
            assert(entries.deep_view() =~~= label_entries(text@).drop_last());
        }
    }
    entries
}

} // verus!
