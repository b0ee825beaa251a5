//! The closed family of key types and its type-erased wrapper.
//!
//! Keys are text, booleans, unsigned 32-bit integers, or 32-bit floats.  Each
//! concrete type maps to one variant of [`KeyWrapper`] and to one total order:
//! lexicographic by code point for text, `false < true` for booleans, numeric
//! for integers.  A float key is carried as its order-preserving code (see
//! [`FloatKey`]), so float ordering is numeric ordering of the codes.

use vstd::prelude::*;

verus! {

/// A 32-bit float key, represented by an order code.
///
/// The code is the standard monotone image of a finite, non-NaN IEEE 754
/// single-precision value: the bit pattern with the sign bit set for
/// non-negative values, and all bits flipped for negative values.  Comparing
/// two codes as unsigned integers agrees with comparing the original floats,
/// so this type carries exactly the information the store's ordering needs.
/// Converting a float to and from its code is the caller's concern; this crate
/// never inspects the code beyond its order.
#[derive(Clone, Copy, PartialEq, Eq, Structural, Debug)]
pub struct FloatKey {
    pub code: u32,
}

impl FloatKey {
    pub fn new(code: u32) -> (k: FloatKey)
        ensures
            k.code == code,
    {
        FloatKey { code }
    }
}

/// A type-erased key: one concrete key value, tagged with its type.
pub enum KeyWrapper {
    Str(String),
    Bool(bool),
    Uint(u32),
    Float(FloatKey),
}

/// The mathematical value of a [`KeyWrapper`].
pub ghost enum KeyView {
    Str(Seq<char>),
    Bool(bool),
    Uint(u32),
    Float(u32),
}

impl View for KeyWrapper {
    type V = KeyView;

    open spec fn view(&self) -> KeyView {
        match self {
            KeyWrapper::Str(s) => KeyView::Str(s@),
            KeyWrapper::Bool(b) => KeyView::Bool(*b),
            KeyWrapper::Uint(u) => KeyView::Uint(*u),
            KeyWrapper::Float(f) => KeyView::Float(f.code),
        }
    }
}

/// Whether two key values are of the same concrete type.
pub open spec fn same_kind(a: KeyView, b: KeyView) -> bool {
    match (a, b) {
        (KeyView::Str(_), KeyView::Str(_)) => true,
        (KeyView::Bool(_), KeyView::Bool(_)) => true,
        (KeyView::Uint(_), KeyView::Uint(_)) => true,
        (KeyView::Float(_), KeyView::Float(_)) => true,
        _ => false,
    }
}

/// Lexicographic order on text, comparing code points position by position;
/// a proper prefix sorts before its extensions.
pub open spec fn lex_lt(a: Seq<char>, b: Seq<char>) -> bool
    decreases a.len(),
{
    if b.len() == 0 {
        false
    } else if a.len() == 0 {
        true
    } else if (a[0] as u32) < (b[0] as u32) {
        true
    } else if (a[0] as u32) == (b[0] as u32) {
        lex_lt(a.skip(1), b.skip(1))
    } else {
        false
    }
}

/// The strict order on key values.  Keys of different concrete types are
/// never ordered against each other.
pub open spec fn key_lt(a: KeyView, b: KeyView) -> bool {
    match (a, b) {
        (KeyView::Str(x), KeyView::Str(y)) => lex_lt(x, y),
        (KeyView::Bool(x), KeyView::Bool(y)) => !x && y,
        (KeyView::Uint(x), KeyView::Uint(y)) => x < y,
        (KeyView::Float(x), KeyView::Float(y)) => x < y,
        _ => false,
    }
}

/// The four one-bound range comparisons a reader offers.
#[derive(Clone, Copy, PartialEq, Eq, Structural, Debug)]
pub enum RangeOp {
    Gt,
    Gte,
    Lt,
    Lte,
}

/// Whether a stored key `k` satisfies the range comparison `op` against the
/// query bound `bound`.  A key of another concrete type than the bound never
/// does.
pub open spec fn in_range(op: RangeOp, bound: KeyView, k: KeyView) -> bool {
    match op {
        RangeOp::Gt => key_lt(bound, k),
        RangeOp::Gte => key_lt(bound, k) || (same_kind(bound, k) && k == bound),
        RangeOp::Lt => key_lt(k, bound),
        RangeOp::Lte => key_lt(k, bound) || (same_kind(bound, k) && k == bound),
    }
}

/// If text `a` and text `b` agree, code point by code point, on their first
/// `i` positions, then their order is decided at position `i`: by the code
/// points there if both are that long and they differ, and by length
/// otherwise.
proof fn lemma_lex_common_prefix(a: Seq<char>, b: Seq<char>, i: int)
    requires
        0 <= i <= a.len(),
        i <= b.len(),
        forall|j: int| 0 <= j < i ==> (a[j] as u32) == (b[j] as u32),
    ensures
        lex_lt(a, b) == if i < a.len() && i < b.len() {
            if (a[i] as u32) < (b[i] as u32) {
                true
            } else if (a[i] as u32) == (b[i] as u32) {
                lex_lt(a.skip(i + 1), b.skip(i + 1))
            } else {
                false
            }
        } else {
            a.len() < b.len()
        },
    decreases i,
{
    if i == 0 {
        if a.len() > 0 && b.len() > 0 {
            assert(a.skip(i + 1) == a.skip(1));
            assert(b.skip(i + 1) == b.skip(1));
        }
    } else {
        let a1 = a.skip(1);
        let b1 = b.skip(1);
        assert((a[0] as u32) == (b[0] as u32));
        assert(lex_lt(a, b) == lex_lt(a1, b1));
        assert(forall|j: int| 0 <= j < i - 1 ==> (a1[j] as u32) == (b1[j] as u32)) by {
            assert(forall|j: int| 0 <= j < i - 1 ==> a1[j] == a[j + 1] && b1[j] == b[j + 1]);
        }
        lemma_lex_common_prefix(a1, b1, i - 1);
        if i < a.len() && i < b.len() {
            assert(a1[i - 1] == a[i]);
            assert(b1[i - 1] == b[i]);
            assert(a1.skip(i) =~= a.skip(i + 1));
            assert(b1.skip(i) =~= b.skip(i + 1));
        }
    }
}

/// Lexicographic comparison of two text keys.
fn str_lt(a: &str, b: &str) -> (r: bool)
    ensures
        r == lex_lt(a@, b@),
{
    let alen = a.unicode_len();
    let blen = b.unicode_len();
    let mut i: usize = 0;
    while i < alen && i < blen
        invariant
            alen == a@.len(),
            blen == b@.len(),
            i <= alen,
            i <= blen,
            forall|j: int| 0 <= j < i ==> (a@[j] as u32) == (b@[j] as u32),
        decreases alen - i,
    {
        let ca = a.get_char(i);
        let cb = b.get_char(i);
        if (ca as u32) != (cb as u32) {
            proof {
                lemma_lex_common_prefix(a@, b@, i as int);
            }
            return (ca as u32) < (cb as u32);
        }
        i += 1;
    }
    proof {
        lemma_lex_common_prefix(a@, b@, i as int);
    }
    alen < blen
}

/// Strict order on two wrapped keys; `false` whenever the concrete types
/// differ.
pub fn key_lt_exec(a: &KeyWrapper, b: &KeyWrapper) -> (r: bool)
    ensures
        r == key_lt(a@, b@),
{
    match (a, b) {
        (KeyWrapper::Str(x), KeyWrapper::Str(y)) => str_lt(x.as_str(), y.as_str()),
        (KeyWrapper::Bool(x), KeyWrapper::Bool(y)) => !*x && *y,
        (KeyWrapper::Uint(x), KeyWrapper::Uint(y)) => *x < *y,
        (KeyWrapper::Float(x), KeyWrapper::Float(y)) => x.code < y.code,
        _ => false,
    }
}

/// Equality of two wrapped keys; `false` whenever the concrete types differ.
pub fn key_eq_exec(a: &KeyWrapper, b: &KeyWrapper) -> (r: bool)
    ensures
        r == (a@ == b@),
{
    match (a, b) {
        (KeyWrapper::Str(x), KeyWrapper::Str(y)) => x.eq(y),
        (KeyWrapper::Bool(x), KeyWrapper::Bool(y)) => *x == *y,
        (KeyWrapper::Uint(x), KeyWrapper::Uint(y)) => *x == *y,
        (KeyWrapper::Float(x), KeyWrapper::Float(y)) => x.code == y.code,
        _ => false,
    }
}

/// Whether a stored key satisfies the range comparison against the bound.
pub fn key_in_range_exec(op: RangeOp, bound: &KeyWrapper, k: &KeyWrapper) -> (r: bool)
    ensures
        r == in_range(op, bound@, k@),
{
    match op {
        RangeOp::Gt => key_lt_exec(bound, k),
        RangeOp::Gte => key_lt_exec(bound, k) || key_eq_exec(bound, k),
        RangeOp::Lt => key_lt_exec(k, bound),
        RangeOp::Lte => key_lt_exec(k, bound) || key_eq_exec(k, bound),
    }
}

/// Two characters with one code point are one character.
proof fn lemma_char_code_injective(c1: char, c2: char)
    requires
        c1 as u32 == c2 as u32,
    ensures
        c1 == c2,
{
}

/// The text order is strict and total: of two texts, at most one of
/// `lex_lt(x, y)` and `lex_lt(y, x)` holds, and when neither does the texts
/// are equal.
pub proof fn lemma_lex_strict_total(x: Seq<char>, y: Seq<char>)
    ensures
        lex_lt(x, y) ==> !(lex_lt(y, x) || x == y),
        !lex_lt(x, y) && !lex_lt(y, x) ==> x == y,
    decreases x.len(),
{
    if y.len() == 0 {
        if x.len() == 0 {
            assert(x =~= y);
        }
    } else if x.len() == 0 {
    } else {
        let cx = x[0] as u32;
        let cy = y[0] as u32;
        if cx == cy {
            lemma_char_code_injective(x[0], y[0]);
            assert(x[0] == y[0]);
            lemma_lex_strict_total(x.skip(1), y.skip(1));
            if !lex_lt(x, y) && !lex_lt(y, x) {
                assert(x.skip(1) == y.skip(1));
                assert(x.len() == y.len());
                assert forall|i: int| 0 <= i < x.len() implies x[i] == y[i] by {
                    if i > 0 {
                        assert(x.skip(1)[i - 1] == y.skip(1)[i - 1]);
                    }
                }
                assert(x =~= y);
            }
            if lex_lt(x, y) && x == y {
                assert(x.skip(1) == y.skip(1));
                assert(false);
            }
        }
    }
}

/// On keys of one concrete type the key order is strict and total: exactly
/// one of `key_lt(a, b)`, `key_lt(b, a)` and `a == b` holds.
pub proof fn lemma_key_order_strict_total(a: KeyView, b: KeyView)
    requires
        same_kind(a, b),
    ensures
        key_lt(a, b) ==> !(key_lt(b, a) || a == b),
        key_lt(b, a) ==> !(key_lt(a, b) || a == b),
        !key_lt(a, b) && !key_lt(b, a) ==> a == b,
{
    match (a, b) {
        (KeyView::Str(x), KeyView::Str(y)) => {
            lemma_lex_strict_total(x, y);
            lemma_lex_strict_total(y, x);
        },
        _ => {},
    }
}

/// A key in range against a bound is of the bound's concrete type.
pub proof fn lemma_in_range_same_kind(op: RangeOp, bound: KeyView, k: KeyView)
    ensures
        in_range(op, bound, k) ==> same_kind(bound, k),
{
}

/// A copy of a wrapped key, equal in value to the original.
pub fn clone_key(k: &KeyWrapper) -> (r: KeyWrapper)
    ensures
        r@ == k@,
{
    match k {
        KeyWrapper::Str(s) => KeyWrapper::Str(s.clone()),
        KeyWrapper::Bool(b) => KeyWrapper::Bool(*b),
        KeyWrapper::Uint(u) => KeyWrapper::Uint(*u),
        KeyWrapper::Float(f) => KeyWrapper::Float(*f),
    }
}

/// The capability contract of a concrete key type: a stable conversion to and
/// from the type-erased wrapper, preserving the key's value.
pub trait Key: Sized {
    /// The mathematical value of this key.
    spec fn key_view(&self) -> KeyView;

    /// Whether a wrapped key value is of this concrete type.
    spec fn kind_matches(kv: KeyView) -> bool;

    /// A key of this type is of the same concrete kind as a wrapped key value
    /// exactly when that value matches this type's tag.
    proof fn kind_is_same_kind(&self, kv: KeyView)
        ensures
            Self::kind_matches(kv) == same_kind(self.key_view(), kv),
    ;

    /// Whether a wrapped key is of this concrete type.
    fn kind_matches_exec(w: &KeyWrapper) -> (r: bool)
        ensures
            r == Self::kind_matches(w@),
    ;

    /// Erase this key into its wrapper.
    fn into_wrapper(self) -> (w: KeyWrapper)
        ensures
            w@ == self.key_view(),
    ;

    /// Reconstruct a key of this type from a wrapper of the matching kind.
    fn from_wrapper(w: &KeyWrapper) -> (k: Self)
        requires
            Self::kind_matches(w@),
        ensures
            k.key_view() == w@,
    ;
}

impl Key for String {
    open spec fn key_view(&self) -> KeyView {
        KeyView::Str(self@)
    }

    open spec fn kind_matches(kv: KeyView) -> bool {
        kv is Str
    }

    proof fn kind_is_same_kind(&self, kv: KeyView) {
    }

    fn kind_matches_exec(w: &KeyWrapper) -> (r: bool) {
        match w {
            KeyWrapper::Str(_) => true,
            _ => false,
        }
    }

    fn into_wrapper(self) -> (w: KeyWrapper) {
        KeyWrapper::Str(self)
    }

    fn from_wrapper(w: &KeyWrapper) -> (k: Self) {
        match w {
            KeyWrapper::Str(s) => s.clone(),
            _ => vstd::pervasive::unreached(),
        }
    }
}

impl Key for bool {
    open spec fn key_view(&self) -> KeyView {
        KeyView::Bool(*self)
    }

    open spec fn kind_matches(kv: KeyView) -> bool {
        kv is Bool
    }

    proof fn kind_is_same_kind(&self, kv: KeyView) {
    }

    fn kind_matches_exec(w: &KeyWrapper) -> (r: bool) {
        match w {
            KeyWrapper::Bool(_) => true,
            _ => false,
        }
    }

    fn into_wrapper(self) -> (w: KeyWrapper) {
        KeyWrapper::Bool(self)
    }

    fn from_wrapper(w: &KeyWrapper) -> (k: Self) {
        match w {
            KeyWrapper::Bool(b) => *b,
            _ => vstd::pervasive::unreached(),
        }
    }
}

impl Key for u32 {
    open spec fn key_view(&self) -> KeyView {
        KeyView::Uint(*self)
    }

    open spec fn kind_matches(kv: KeyView) -> bool {
        kv is Uint
    }

    proof fn kind_is_same_kind(&self, kv: KeyView) {
    }

    fn kind_matches_exec(w: &KeyWrapper) -> (r: bool) {
        match w {
            KeyWrapper::Uint(_) => true,
            _ => false,
        }
    }

    fn into_wrapper(self) -> (w: KeyWrapper) {
        KeyWrapper::Uint(self)
    }

    fn from_wrapper(w: &KeyWrapper) -> (k: Self) {
        match w {
            KeyWrapper::Uint(u) => *u,
            _ => vstd::pervasive::unreached(),
        }
    }
}

impl Key for FloatKey {
    open spec fn key_view(&self) -> KeyView {
        KeyView::Float(self.code)
    }

    open spec fn kind_matches(kv: KeyView) -> bool {
        kv is Float
    }

    proof fn kind_is_same_kind(&self, kv: KeyView) {
    }

    fn kind_matches_exec(w: &KeyWrapper) -> (r: bool) {
        match w {
            KeyWrapper::Float(_) => true,
            _ => false,
        }
    }

    fn into_wrapper(self) -> (w: KeyWrapper) {
        KeyWrapper::Float(self)
    }

    fn from_wrapper(w: &KeyWrapper) -> (k: Self) {
        match w {
            KeyWrapper::Float(f) => *f,
            _ => vstd::pervasive::unreached(),
        }
    }
}

} // verus!
