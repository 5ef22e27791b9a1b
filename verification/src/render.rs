//! The textual form of a value: one character per trit, most significant
//! first, without leading zeros.

use crate::bits::bit;
use crate::ternary64::Ternary64;
use bitvec::order::Msb0;
use bitvec::view::BitView;
use vstd::prelude::*;
use vstd::string::StringExecFns;

verus! {

/// The character that stands for a trit: `'+'` for +1, `'-'` for -1 and
/// `'0'` for 0.
pub open spec fn trit_char(t: int) -> char {
    if t == 1 {
        '+'
    } else if t == -1 {
        '-'
    } else {
        '0'
    }
}

/// The radix marker that a prefixed rendering starts with.
pub open spec fn radix_marker() -> Seq<char> {
    seq!['0', 't']
}

/// The bits of a word, most significant first.
///
/// Trusted: this calls `bitvec::view::BitView::view_bits` with the order
/// `bitvec::order::Msb0` and copies the bits out with `Iter::by_vals`. The
/// contract claims what bitvec documents of that view: it spans the 64 bits
/// of the word, and its index `i` is the bit that weighs `2^(63 - i)`.
#[verifier::external_body]
fn msb_first_bits(word: u64) -> (bits: Vec<bool>)
    ensures
        bits@.len() == 64,
        forall|i: int| 0 <= i < 64 ==> bits@[i] == bit(word, 63 - i),
{
    word.view_bits::<Msb0>().iter().by_vals().collect()
}

impl Ternary64 {
    /// How many trits the value takes to write: one more than the highest
    /// position below `k` that holds a trit other than 0, or 0 if there is
    /// none.
    pub open spec fn significant_below(self, k: int) -> int
        decreases k,
    {
        if k <= 0 {
            0
        } else if self.trit(k - 1) != 0 {
            k
        } else {
            self.significant_below(k - 1)
        }
    }

    /// The number of trits in the rendering.
    pub open spec fn trit_count(self) -> int {
        self.significant_below(64)
    }

    /// The rendering: the trits from the most significant one that is not 0
    /// down to position 0, each as its character. Zero renders as the empty
    /// text.
    pub open spec fn text(self) -> Seq<char> {
        Seq::new(
            self.trit_count() as nat,
            |j: int| trit_char(self.trit(self.trit_count() - 1 - j)),
        )
    }

    /// The rendering filled up to a width: the radix marker if `prefix` is
    /// set, then as many `'0'` as it takes to reach `width` characters in
    /// all, then the trits. A rendering that is already that long gets no
    /// filling.
    pub open spec fn padded_text(self, width: int, prefix: bool) -> Seq<char> {
        let marker = if prefix {
            radix_marker()
        } else {
            Seq::<char>::empty()
        };
        let used = marker.len() + self.text().len();
        let fill = if width > used {
            width - used
        } else {
            0
        };
        marker + Seq::new(fill as nat, |j: int| '0') + self.text()
    }

    /// The significant trits are a prefix of the positions: everything at
    /// or above their count is 0, and the last of them is not.
    pub proof fn lemma_significant_below(self, k: int)
        requires
            0 <= k,
        ensures
            0 <= self.significant_below(k) <= k,
            forall|i: int| self.significant_below(k) <= i < k ==> self.trit(i) == 0,
            self.significant_below(k) > 0 ==> self.trit(self.significant_below(k) - 1) != 0,
        decreases k,
    {
        if k > 0 && self.trit(k - 1) == 0 {
            self.lemma_significant_below(k - 1);
        }
    }

    /// Renders the trits and counts them.
    fn render_counted(&self) -> (result: (String, usize))
        ensures
            result.0@ == self.text(),
            result.1 == self.text().len(),
            result.1 <= 64,
    {
        let positive = msb_first_bits(self.positive);
        let negative = msb_first_bits(self.negative);
        let mut out = String::new();
        let mut count: usize = 0;
        let mut i: usize = 0;
        let ghost n: int = self.trit_count();
        proof {
            self.lemma_significant_below(64);
            reveal_strlit("+");
            reveal_strlit("-");
            reveal_strlit("0");
        }
        while i < 64
            invariant
                i <= 64,
                n == self.trit_count(),
                0 <= n <= 64,
                forall|p: int| n <= p < 64 ==> self.trit(p) == 0,
                n > 0 ==> self.trit(n - 1) != 0,
                positive@.len() == 64,
                negative@.len() == 64,
                forall|j: int| 0 <= j < 64 ==> positive@[j] == bit(self.positive, 63 - j),
                forall|j: int| 0 <= j < 64 ==> negative@[j] == bit(self.negative, 63 - j),
                count == (if i + n > 64 { i + n - 64 } else { 0 }),
                out@ == Seq::new(count as nat, |j: int| trit_char(self.trit(n - 1 - j))),
                "+"@ == seq!['+'],
                "-"@ == seq!['-'],
                "0"@ == seq!['0'],
            decreases 64 - i,
        {
            let p = positive[i];
            let q = negative[i];
            let ghost before = out@;
            let ghost t: int = self.trit(63 - i);
            if p && !q {
                out.append("+");
                count += 1;
            } else if q && !p {
                out.append("-");
                count += 1;
            } else if count > 0 {
                out.append("0");
                count += 1;
            }
            proof {
                if count as int > before.len() {
                    assert(63 - i == n - 1 - before.len());
                    assert(out@ == before.push(trit_char(t)));
                }
                assert(out@ == Seq::new(count as nat, |j: int| trit_char(self.trit(n - 1 - j))));
            }
            i += 1;
        }
        (out, count)
    }

    /// Renders the value as text: one character per trit, from the most
    /// significant trit that is not 0 down to position 0, with `'+'` for +1,
    /// `'-'` for -1 and `'0'` for 0. A collision renders as `'0'`, and zero
    /// as the empty string.
    pub fn render(&self) -> (text: String)
        ensures
            text@ == self.text(),
            text@.len() <= 64,
    {
        self.render_counted().0
    }

    /// Renders the value filled up with zeros to at least `width` characters.
    ///
    /// With `prefix` the text starts with the radix marker `0t`, which counts
    /// toward the width. The filling zeros come after the marker and before
    /// the trits, so a filled rendering reads as the same numeral.
    pub fn render_padded(&self, width: usize, prefix: bool) -> (text: String)
        ensures
            text@ == self.padded_text(width as int, prefix),
    {
        let (digits, count) = self.render_counted();
        let mut out = String::new();
        let mut used: usize = count;
        proof {
            reveal_strlit("0t");
            reveal_strlit("0");
        }
        if prefix {
            out.append("0t");
            used += 2;
        }
        let ghost marker = out@;
        let ghost start = used;
        assert(marker == if prefix { radix_marker() } else { Seq::<char>::empty() });
        while used < width
            invariant
                start <= used,
                used <= width || used == start,
                out@ == marker + Seq::new((used - start) as nat, |j: int| '0'),
                "0"@ == seq!['0'],
            decreases width - used,
        {
            out.append("0");
            used += 1;
        }
        out.append(digits.as_str());
        out
    }
}

} // verus!
