//! One transaction record and its rewriting into a spreadsheet line of
//! six semicolon-separated fields: reversed date, the fixed expense
//! label, the amount with a decimal comma, the title, the capitalized
//! category (or the fixed fallback), and the installment marker.

use vstd::prelude::*;

use crate::TransformError;
use crate::amount::Amount;
use crate::amount::MAX_UNITS;
use crate::amount::amount_cents;
use crate::amount::amount_neg;
use crate::amount::amount_text;
use crate::amount::amount_units;
use crate::amount::amount_valid;
use crate::date::date_out;
use crate::date::format_date_text;
use crate::installment::installment_of;
use crate::installment::find_marker;
use crate::text::capitalize;
use crate::text::capitalized;
use crate::text::push_char;

verus! {

/// One decoded transaction: a date text, an optional category, a free
/// title, and a signed amount in cents.
#[derive(Debug)]
pub struct Transaction {
    pub date: String,
    pub category: Option<String>,
    pub title: String,
    pub amount: Amount,
}

/// Whether an optional category is usable: absent, or present with at
/// least one character.
pub open spec fn category_ok(c: Option<String>) -> bool {
    match c {
        Some(s) => s@.len() > 0,
        None => true,
    }
}

/// The category field of the output line: the category with its first
/// character upper-cased, or the fixed fallback label when absent.
pub open spec fn category_text(c: Option<String>) -> Seq<char> {
    match c {
        Some(s) => capitalized(s@),
        None => "Outros"@,
    }
}

/// The full output line of a transaction: six fields joined by `;`.
pub open spec fn spec_line(t: Transaction) -> Seq<char> {
    date_out(t.date@) + seq![';'] + "Despesa"@ + seq![';'] + amount_text(
        t.amount.neg,
        t.amount.cents as nat,
    ) + seq![';'] + t.title@ + seq![';'] + category_text(t.category) + seq![';'] + installment_of(
        t.title@,
    )
}

/// The fixed header line written before any record.
pub open spec fn header_text() -> Seq<char> {
    "Data;Tipo;Valor;Descrição;Categoria;Parcela"@
}

impl Transaction {
    /// A well-formed transaction never carries an empty category.
    pub open spec fn wf(self) -> bool {
        category_ok(self.category)
    }

    /// Decodes one row's fields into a transaction.
    ///
    /// Succeeds exactly when the amount text is a well-formed decimal
    /// number of at most [`MAX_UNITS`] units and the category, if
    /// present, is non-empty; the error names the first of those
    /// conditions to fail, the amount being checked first.
    pub fn new(date: String, category: Option<String>, title: String, amount: &str) -> (r: Result<
        Transaction,
        TransformError,
    >)
        ensures
            ({
                let fits = amount_valid(amount@) && amount_units(amount@) <= MAX_UNITS;
                match r {
                    Ok(t) => fits && category_ok(category) && t.wf() && t.date@ == date@
                        && t.title@ == title@ && t.category == category && t.amount.neg
                        == amount_neg(amount@) && t.amount.cents == amount_cents(amount@),
                    Err(TransformError::InvalidAmount) => !amount_valid(amount@),
                    Err(TransformError::AmountTooLarge) => amount_valid(amount@) && amount_units(
                        amount@,
                    ) > MAX_UNITS,
                    Err(TransformError::EmptyCategory) => fits && !category_ok(category),
                }
            }),
    {
        let a = match Amount::parse(amount) {
            Ok(a) => a,
            Err(e) => {
                return Err(e);
            },
        };
        let cat_ok = match &category {
            Some(c) => !c.as_str().is_empty(),
            None => true,
        };
        if !cat_ok {
            return Err(TransformError::EmptyCategory);
        }
        Ok(Transaction { date, category, title, amount: a })
    }

    /// Rewrites the date text by reversing its `-`-separated components
    /// and joining them with `/`.
    pub fn format_date(date: &str) -> (r: String)
        ensures
            r@ == date_out(date@),
    {
        format_date_text(date)
    }

    /// Formats the amount with a decimal comma and exactly two
    /// fractional digits.
    pub fn format_amount(&self) -> (r: String)
        ensures
            r@ == amount_text(self.amount.neg, self.amount.cents as nat),
    {
        self.amount.format()
    }

    /// The installment marker at the end of the title, when the title
    /// has one.
    pub fn extract_installment(&self) -> (r: Option<String>)
        ensures
            match r {
                Some(m) => m@ == installment_of(self.title@) && m@.len() > 0,
                None => installment_of(self.title@).len() == 0,
            },
    {
        let t = self.title.as_str();
        let n = t.unicode_len();
        let start = find_marker(t);
        if start < n {
            let m = String::from_str(t.substring_char(start, n));
            proof {
                assert(m@ =~= installment_of(self.title@));
            }
            Some(m)
        } else {
            proof {
                assert(installment_of(self.title@) =~= Seq::<char>::empty());
            }
            None
        }
    }

    /// The output line of this transaction: six fields joined by `;`.
    pub fn to_sheets_format(&self) -> (r: String)
        requires
            self.wf(),
        ensures
            r@ == spec_line(*self),
    {
        let mut out = Self::format_date(self.date.as_str());
        push_char(&mut out, ';');
        out.append("Despesa");
        push_char(&mut out, ';');
        let amt = self.format_amount();
        out.append(amt.as_str());
        push_char(&mut out, ';');
        out.append(self.title.as_str());
        push_char(&mut out, ';');
        match &self.category {
            Some(c) => {
                let cap = capitalize(c.as_str());
                out.append(cap.as_str());
            },
            None => {
                out.append("Outros");
            },
        }
        push_char(&mut out, ';');
        match self.extract_installment() {
            Some(m) => {
                out.append(m.as_str());
            },
            None => {},
        }
        proof {
            assert(out@ =~= spec_line(*self));
        }
        out
    }
}

/// Writes the fixed header line.
pub fn header_line() -> (r: String)
    ensures
        r@ == header_text(),
{
    String::from_str("Data;Tipo;Valor;Descrição;Categoria;Parcela")
}

/// One input row as its fields arrive from the export, not yet decoded.
#[derive(Debug)]
pub struct InputRow {
    pub date: String,
    pub category: Option<String>,
    pub title: String,
    pub amount: String,
}

/// Whether a row decodes: its amount text is a well-formed decimal
/// number of at most [`MAX_UNITS`] units, and its category, if
/// present, is non-empty.
pub open spec fn row_ok(r: InputRow) -> bool {
    amount_valid(r.amount@) && amount_units(r.amount@) <= MAX_UNITS && category_ok(r.category)
}

/// The error a bad row is rejected with, the amount being checked
/// first.
pub open spec fn row_error(r: InputRow) -> TransformError {
    if !amount_valid(r.amount@) {
        TransformError::InvalidAmount
    } else if amount_units(r.amount@) > MAX_UNITS {
        TransformError::AmountTooLarge
    } else {
        TransformError::EmptyCategory
    }
}

/// The transaction a good row decodes to.
pub open spec fn row_transaction(r: InputRow) -> Transaction {
    Transaction {
        date: r.date,
        category: r.category,
        title: r.title,
        amount: Amount { neg: amount_neg(r.amount@), cents: amount_cents(r.amount@) as u64 },
    }
}

/// The output line of a good row.
pub open spec fn row_line(r: InputRow) -> Seq<char> {
    spec_line(row_transaction(r))
}

/// Adapts a whole export at once: on success, the fixed header line
/// followed by exactly one output line per input row, in input order;
/// otherwise the error of the first row that does not decode.
#[verifier::loop_isolation(false)]
pub fn adapt_rows(rows: &Vec<InputRow>) -> (r: Result<Vec<String>, TransformError>)
    ensures
        match r {
            Ok(lines) => (forall|i: int| 0 <= i < rows@.len() ==> row_ok(rows@[i])) && lines@.len()
                == rows@.len() + 1 && lines@[0]@ == header_text() && (forall|i: int|
                0 <= i < rows@.len() ==> lines@[i + 1]@ == row_line(rows@[i])),
            Err(e) => exists|i: int|
                0 <= i < rows@.len() && !row_ok(rows@[i]) && e == row_error(rows@[i]) && (forall|
                    j: int| 0 <= j < i ==> row_ok(rows@[j])),
        },
{
    let mut lines: Vec<String> = Vec::new();
    lines.push(header_line());
    let mut idx: usize = 0;
    while idx < rows.len()
        invariant
            idx <= rows@.len(),
            lines@.len() == idx + 1,
            lines@[0]@ == header_text(),
            forall|i: int| 0 <= i < idx ==> row_ok(rows@[i]) && lines@[i + 1]@ == row_line(rows@[i]),
        decreases rows@.len() - idx,
    {
        let row = &rows[idx];
        let date = row.date.clone();
        let category = match &row.category {
            Some(c) => Some(c.clone()),
            None => None,
        };
        let title = row.title.clone();
        let t = match Transaction::new(date, category, title, row.amount.as_str()) {
            Ok(t) => t,
            Err(e) => {
                return Err(e);
            },
        };
        lines.push(t.to_sheets_format());
        idx = idx + 1;
    }
    Ok(lines)
}

} // verus!
