//! Rectangular row-major traces of field elements.
//!
//! The main (and optional preprocessed) execution trace of a table is a
//! rectangle of base-field elements; the permutation trace produced by the
//! lookup argument is a rectangle of extension-field elements. Both are held
//! row-major with an explicit width and height.

use vstd::prelude::*;

use crate::ext::ExtFelt;
use crate::field::Felt;
use crate::expr::felts_view;
use crate::expr::row_wf;

verus! {

/// A row-major rectangle of base-field elements.
#[derive(Debug)]
pub struct MainTrace {
    /// The values, row-major: row `r` occupies `values[r*width .. (r+1)*width]`.
    pub values: Vec<Felt>,
    /// The number of columns.
    pub width: usize,
    /// The number of rows.
    pub height: usize,
}

/// The index of `(row, col)` lies inside a `height * width` rectangle.
pub proof fn lemma_rc_index(width: int, height: int, r: int, c: int)
    by (nonlinear_arith)
    requires
        0 <= r < height,
        0 <= c < width,
    ensures
        0 <= r * width + c < height * width,
{
}

impl MainTrace {
    /// The rectangle is consistent and every entry is canonical.
    pub open spec fn wf(self) -> bool {
        &&& self.width > 0
        &&& self.values@.len() == self.height * self.width
        &&& row_wf(self.values@)
    }

    /// The canonical value at one cell.
    pub open spec fn at(self, r: int, c: int) -> int {
        self.values@[r * self.width + c]@
    }

    /// The canonical values of one row.
    pub open spec fn row_view(self, r: int) -> Seq<int> {
        Seq::new(self.width as nat, |c: int| self.at(r, c))
    }

    /// Every entry of a row of a well-formed trace is canonical.
    pub proof fn lemma_row_view_canonical(self, r: int)
        requires
            self.wf(),
            0 <= r < self.height,
        ensures
            forall|c: int|
                0 <= c < self.width ==> 0 <= #[trigger] self.row_view(r)[c]
                    < crate::field::prime(),
    {
        assert forall|c: int|
            0 <= c < self.width implies 0 <= #[trigger] self.row_view(r)[c]
            < crate::field::prime() by {
            lemma_rc_index(self.width as int, self.height as int, r, c);
            assert(self.values@[r * self.width + c].wf());
        }
    }

    /// Builds a trace from row-major values, reducing each into the field.
    /// Fails exactly when the values do not fill a rectangle of the given
    /// positive width.
    pub fn from_values(values: Vec<u32>, width: usize) -> (r: Option<MainTrace>)
        ensures
            r is Some <==> (width > 0 && values@.len() % (width as nat) == 0),
            r is Some ==> {
                let t = r->Some_0;
                &&& t.wf()
                &&& t.width == width
                &&& t.height * t.width == values@.len()
                &&& forall|i: int|
                    0 <= i < values@.len() ==> t.values@[i]@ == #[trigger] values@[i] as int
                        % crate::field::prime()
            },
    {
        if width == 0 || values.len() % width != 0 {
            return None;
        }
        let height = values.len() / width;
        let mut out: Vec<Felt> = Vec::new();
        let mut i: usize = 0;
        while i < values.len()
            invariant
                i <= values@.len(),
                out@.len() == i,
                row_wf(out@),
                forall|j: int|
                    0 <= j < i ==> out@[j]@ == #[trigger] values@[j] as int % crate::field::prime(),
            decreases values@.len() - i,
        {
            out.push(Felt::new(values[i]));
            i += 1;
        }
        proof {
            assert(values@.len() == height * width) by {
                vstd::arithmetic::div_mod::lemma_fundamental_div_mod(
                    values@.len() as int,
                    width as int,
                );
            };
        }
        Some(MainTrace { values: out, width, height })
    }

    /// The number of rows.
    pub fn rows(&self) -> (r: usize)
        ensures
            r == self.height,
    {
        self.height
    }

    /// The value at one cell.
    pub fn get(&self, r: usize, c: usize) -> (out: Felt)
        requires
            self.wf(),
            r < self.height,
            c < self.width,
        ensures
            out.wf(),
            out@ == self.at(r as int, c as int),
    {
        let n = self.values.len();
        proof {
            lemma_rc_index(self.width as int, self.height as int, r as int, c as int);
            assert(r * self.width + c < n);
        }
        self.values[r * self.width + c]
    }

    /// One row of the trace, as a fresh vector of its column values.
    pub fn row(&self, r: usize) -> (out: Vec<Felt>)
        requires
            self.wf(),
            r < self.height,
        ensures
            row_wf(out@),
            felts_view(out@) == self.row_view(r as int),
            out@.len() == self.width,
    {
        let mut out: Vec<Felt> = Vec::new();
        let mut c: usize = 0;
        while c < self.width
            invariant
                self.wf(),
                r < self.height,
                c <= self.width,
                out@.len() == c,
                row_wf(out@),
                forall|j: int| 0 <= j < c ==> out@[j]@ == self.at(r as int, j),
            decreases self.width - c,
        {
            out.push(self.get(r, c));
            c += 1;
        }
        proof {
            assert(felts_view(out@) =~= self.row_view(r as int));
        }
        out
    }
}

/// A row-major rectangle of extension-field elements.
#[derive(Debug)]
pub struct PermTrace {
    /// The values, row-major: row `r` occupies `values[r*width .. (r+1)*width]`.
    pub values: Vec<ExtFelt>,
    /// The number of columns.
    pub width: usize,
    /// The number of rows.
    pub height: usize,
}

/// Every element of the row is well-formed.
pub open spec fn ext_row_wf(s: Seq<ExtFelt>) -> bool {
    forall|i: int| 0 <= i < s.len() ==> (#[trigger] s[i]).wf()
}

impl PermTrace {
    /// The rectangle is consistent and every entry is well-formed.
    pub open spec fn wf(self) -> bool {
        &&& self.width > 0
        &&& self.values@.len() == self.height * self.width
        &&& ext_row_wf(self.values@)
    }

    /// The model value at one cell.
    pub open spec fn at(self, r: int, c: int) -> Seq<int> {
        self.values@[r * self.width + c]@
    }

    /// The value at one cell.
    pub fn get(&self, r: usize, c: usize) -> (out: ExtFelt)
        requires
            self.wf(),
            r < self.height,
            c < self.width,
        ensures
            out.wf(),
            out@ == self.at(r as int, c as int),
    {
        let n = self.values.len();
        proof {
            lemma_rc_index(self.width as int, self.height as int, r as int, c as int);
            assert(r * self.width + c < n);
        }
        self.values[r * self.width + c]
    }

    /// The last row of the final (running-sum) column: the cumulative sum the
    /// trace exposes to the global zero-sum check.
    pub fn cumulative_sum(&self) -> (out: ExtFelt)
        requires
            self.wf(),
            self.height > 0,
        ensures
            out.wf(),
            out@ == self.at(self.height - 1, self.width - 1),
    {
        self.get(self.height - 1, self.width - 1)
    }
}

} // verus!
