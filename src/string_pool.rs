//! Interning of byte strings, and the byte-text helpers that the rest of the crate writes with.

use vstd::prelude::*;
use vstd::string::StringExecFns;
use vstd::string::StringSliceAdditionalSpecFns;
use vstd::string::StrSliceExecFns;
use vstd::utf8::{decode_utf8, valid_utf8};

verus! {

/// A handle to an interned byte string. Handle `k` (k >= 1) names the `k`-th string that was
/// interned; `0` names no string.
#[derive(Clone, Copy, Debug, PartialEq, Eq, Hash, Structural)]
pub struct PoolS {
    pub value: u64,
}

/// Interns byte strings: equal strings receive equal handles.
#[derive(Debug)]
pub struct StringPool {
    strings: Vec<Vec<u8>>,
}

/// The bytes that a handle stands for in the pool `pool`, if any.
pub open spec fn pooled(pool: Seq<Seq<u8>>, s: PoolS) -> Option<Seq<u8>> {
    if 1 <= s.value <= pool.len() {
        Some(pool[s.value - 1])
    } else {
        None
    }
}

/// The text under which a handle is printed: its bytes, or a marker for a stray handle.
pub open spec fn pooled_text(pool: Seq<Seq<u8>>, s: PoolS) -> Seq<u8> {
    match pooled(pool, s) {
        Some(b) => b,
        None => "<not in pool>".spec_bytes(),
    }
}

/// The handle that `bytes` has in `pool`, or `0` if it has none.
pub open spec fn handle_of(pool: Seq<Seq<u8>>, bytes: Seq<u8>) -> int {
    if exists|i: int| 0 <= i < pool.len() && pool[i] == bytes {
        (choose|i: int| 0 <= i < pool.len() && pool[i] == bytes) + 1
    } else {
        0
    }
}

pub open spec fn distinct(pool: Seq<Seq<u8>>) -> bool {
    forall|i: int, j: int| 0 <= i < pool.len() && 0 <= j < pool.len() && i != j ==> pool[i] != pool[j]
}

/// Looks a byte string up among interned strings.
fn position_of(strings: &Vec<Vec<u8>>, bytes: &Vec<u8>) -> (r: Option<usize>)
    ensures
        match r {
            Some(i) => i < strings@.len() && strings@[i as int]@ == bytes@,
            None => forall|i: int| 0 <= i < strings@.len() ==> strings@[i]@ != bytes@,
        },
{
    let mut i: usize = 0;
    while i < strings.len()
        invariant
            i <= strings@.len(),
            forall|k: int| 0 <= k < i ==> strings@[k]@ != bytes@,
        decreases strings@.len() - i,
    {
        if bytes_equal(&strings[i], bytes) {
            return Some(i);
        }
        i += 1;
    }
    None
}

/// Compares two byte strings.
pub fn bytes_equal(a: &Vec<u8>, b: &Vec<u8>) -> (r: bool)
    ensures
        r == (a@ == b@),
{
    if a.len() != b.len() {
        return false;
    }
    let mut i: usize = 0;
    while i < a.len()
        invariant
            a@.len() == b@.len(),
            i <= a@.len(),
            forall|k: int| 0 <= k < i ==> a@[k] == b@[k],
        decreases a@.len() - i,
    {
        if a[i] != b[i] {
            return false;
        }
        i += 1;
    }
    assert(a@ =~= b@);
    true
}

impl PoolS {
    /// Whether this handle stands for the bytes of `string` in `pool`.
    pub fn eq_utf8(&self, pool: &StringPool, string: &str) -> (r: bool)
        ensures
            r == (pooled(pool.view(), *self) == Some(string.spec_bytes())),
    {
        match pool.unpool_copy(*self) {
            Some(b) => bytes_equal(&b, &string.as_bytes_vec()),
            None => false,
        }
    }

    /// A copy of the bytes that this handle stands for in `pool`.
    pub fn to_vec(&self, pool: &StringPool) -> (r: Vec<u8>)
        requires
            pooled(pool.view(), *self).is_some(),
        ensures
            pooled(pool.view(), *self) == Some(r@),
    {
        match pool.unpool_copy(*self) {
            Some(b) => b,
            None => vstd::pervasive::unreached(),
        }
    }

    /// This handle's bytes in `pool` as text.
    pub fn to_utf8(&self, pool: &StringPool) -> (r: String)
        ensures
            r@ == match pooled(pool.view(), *self) {
                Some(b) => if valid_utf8(b) { decode_utf8(b) } else { "<bad utf8>"@ },
                None => "<not in pool>"@,
            },
    {
        pool.unpool_to_utf8(*self)
    }
}

impl StringPool {
    /// The interned strings, in the order in which they were first seen.
    pub closed spec fn view(&self) -> Seq<Seq<u8>> {
        self.strings@.map_values(|s: Vec<u8>| s@)
    }

    pub closed spec fn wf(&self) -> bool {
        distinct(self.view())
    }

    pub fn new() -> (r: StringPool)
        ensures
            r.wf(),
            r.view() == Seq::<Seq<u8>>::empty(),
    {
        let r = StringPool { strings: Vec::new() };
        assert(r.view() =~= Seq::<Seq<u8>>::empty());
        r
    }

    /// Interns `str`: the handle of an equal string seen before, or a new handle.
    pub fn pool(&mut self, str: Vec<u8>) -> (r: PoolS)
        requires
            old(self).wf(),
        ensures
            final(self).wf(),
            interned(old(self).view(), final(self).view(), str@, r),
    {
        match position_of(&self.strings, &str) {
            Some(i) => {
                let n = self.strings.len();
                proof { self.lemma_handle(i as int); }
                PoolS { value: (i + 1) as u64 }
            },
            None => {
                self.strings.push(str);
                proof {
                    assert(self.view() =~= old(self).view().push(str@));
                    assert(!(exists|i: int| 0 <= i < old(self).view().len() && old(self).view()[i] == str@));
                }
                PoolS { value: self.strings.len() as u64 }
            },
        }
    }

    proof fn lemma_handle(&self, i: int)
        requires
            self.wf(),
            0 <= i < self.view().len(),
        ensures
            handle_of(self.view(), self.view()[i]) == i + 1,
    {
        let v = self.view();
        assert(0 <= i < v.len() && v[i] == v[i]);
        assert(exists|k: int| 0 <= k < v.len() && v[k] == v[i]);
        let c = choose|k: int| 0 <= k < v.len() && v[k] == v[i];
        assert(c == i);
    }

    /// Interns a copy of `str`.
    pub fn pool_ref(&mut self, str: &Vec<u8>) -> (r: PoolS)
        requires
            old(self).wf(),
        ensures
            final(self).wf(),
            interned(old(self).view(), final(self).view(), str@, r),
    {
        self.pool(str.clone())
    }

    /// Interns the bytes of `str`.
    pub fn pool_str(&mut self, str: &str) -> (r: PoolS)
        requires
            old(self).wf(),
        ensures
            final(self).wf(),
            interned(old(self).view(), final(self).view(), str.spec_bytes(), r),
    {
        self.pool(str.as_bytes_vec())
    }

    /// The handle of `str` if it was interned before, else the handle `0`, which names nothing.
    /// The pool is left as it is.
    pub fn pool_tmp(&self, str: &Vec<u8>) -> (r: PoolS)
        requires
            self.wf(),
        ensures
            r.value == handle_of(self.view(), str@),
    {
        match position_of(&self.strings, str) {
            Some(i) => {
                let n = self.strings.len();
                proof { self.lemma_handle(i as int); }
                PoolS { value: (i + 1) as u64 }
            },
            None => PoolS { value: 0 },
        }
    }

    /// As `pool_tmp`, for the bytes of `str`.
    pub fn pool_tmp_str(&self, str: &str) -> (r: PoolS)
        requires
            self.wf(),
        ensures
            r.value == handle_of(self.view(), str.spec_bytes()),
    {
        self.pool_tmp(&str.as_bytes_vec())
    }

    /// A copy of the bytes that `str` stands for.
    pub fn unpool_copy(&self, str: PoolS) -> (r: Option<Vec<u8>>)
        ensures
            match r {
                Some(b) => pooled(self.view(), str) == Some(b@),
                None => pooled(self.view(), str).is_none(),
            },
    {
        if str.value >= 1 && str.value <= self.strings.len() as u64 {
            let i = (str.value - 1) as usize;
            Some(self.strings[i].clone())
        } else {
            None
        }
    }

    /// Appends the text under which `str` is printed to `out`.
    pub fn write_pooled(&self, str: PoolS, out: &mut Vec<u8>)
        ensures
            final(out)@ == old(out)@ + pooled_text(self.view(), str),
    {
        if str.value >= 1 && str.value <= self.strings.len() as u64 {
            let i = (str.value - 1) as usize;
            push_bytes(out, &self.strings[i]);
        } else {
            push_str(out, "<not in pool>");
        }
    }

    /// The bytes of `str` as text, or a marker for a stray handle or bytes that are not UTF-8.
    pub fn unpool_to_utf8(&self, str: PoolS) -> (r: String)
        ensures
            r@ == match pooled(self.view(), str) {
                Some(b) => if valid_utf8(b) { decode_utf8(b) } else { "<bad utf8>"@ },
                None => "<not in pool>"@,
            },
    {
        if str.value >= 1 && str.value <= self.strings.len() as u64 {
            let i = (str.value - 1) as usize;
            match decode_text(&self.strings[i]) {
                Some(text) => text,
                None => String::from_str("<bad utf8>"),
            }
        } else {
            String::from_str("<not in pool>")
        }
    }
}

/// Relies on String::from_utf8: it accepts exactly the valid UTF-8 byte strings, and the text
/// it returns has those bytes.
#[verifier::external_body]
fn decode_text(bytes: &Vec<u8>) -> (r: Option<String>)
    ensures
        r.is_some() == valid_utf8(bytes@),
        r matches Some(s) ==> s@ == decode_utf8(bytes@),
{
    String::from_utf8(bytes.clone()).ok()
}

/// What interning `bytes` does: an equal string keeps its handle, a new one is appended.
pub open spec fn interned(before: Seq<Seq<u8>>, after: Seq<Seq<u8>>, bytes: Seq<u8>, r: PoolS) -> bool {
    &&& handle_of(before, bytes) != 0 ==> after == before && r.value == handle_of(before, bytes)
    &&& handle_of(before, bytes) == 0 ==> after == before.push(bytes) && r.value == after.len()
    &&& pooled(after, r) == Some(bytes)
}

/// Appends the bytes of `s` to `out`.
pub fn push_bytes(out: &mut Vec<u8>, s: &Vec<u8>)
    ensures
        final(out)@ == old(out)@ + s@,
{
    let mut i: usize = 0;
    while i < s.len()
        invariant
            i <= s@.len(),
            out@ == old(out)@ + s@.take(i as int),
        decreases s@.len() - i,
    {
        out.push(s[i]);
        i += 1;
        assert(s@.take(i as int) =~= s@.take(i - 1) .push(s@[i - 1]));
    }
    assert(s@.take(s@.len() as int) =~= s@);
}

/// The decimal digits of `n`.
pub open spec fn decimal(n: nat) -> Seq<u8>
    decreases n,
{
    if n < 10 {
        seq![(48 + n) as u8]
    } else {
        decimal(n / 10).push((48 + n % 10) as u8)
    }
}

/// The digits of a number are at least one byte, each an ASCII digit.
pub proof fn lemma_decimal_digits(n: nat)
    ensures
        decimal(n).len() >= 1,
        forall|i: int| 0 <= i < decimal(n).len() ==> 48 <= #[trigger] decimal(n)[i] <= 57,
    decreases n,
{
    if n >= 10 {
        lemma_decimal_digits(n / 10);
    }
}

/// Different numbers have different digits.
pub proof fn lemma_decimal_injective(m: nat, n: nat)
    requires
        decimal(m) == decimal(n),
    ensures
        m == n,
    decreases m,
{
    if m >= 10 {
        lemma_decimal_digits(m / 10);
    }
    if n >= 10 {
        lemma_decimal_digits(n / 10);
    }
    if m < 10 && n < 10 {
        assert(decimal(m) == seq![(48 + m) as u8]);
        assert(decimal(n) == seq![(48 + n) as u8]);
        assert(seq![(48 + m) as u8][0] == (48 + m) as u8);
        assert(seq![(48 + n) as u8][0] == (48 + n) as u8);
        assert(decimal(m)[0] == decimal(n)[0]);
        assert(((48 + m) as u8) as int == 48 + m);
        assert(((48 + n) as u8) as int == 48 + n);
    } else if m >= 10 && n >= 10 {
        assert(decimal(m).last() == decimal(n).last());
        assert(decimal(m / 10) =~= decimal(m).drop_last());
        assert(decimal(n / 10) =~= decimal(n).drop_last());
        lemma_decimal_injective(m / 10, n / 10);
        assert(decimal(m).last() == (48 + m % 10) as u8);
        assert(decimal(n).last() == (48 + n % 10) as u8);
        assert(((48 + m % 10) as u8) as int == 48 + m % 10);
        assert(((48 + n % 10) as u8) as int == 48 + n % 10);
        assert(m % 10 == n % 10);
    } else if m < 10 {
        assert(decimal(n).len() == decimal(n / 10).len() + 1);
        assert(decimal(m).len() == 1);
    } else {
        assert(decimal(m).len() == decimal(m / 10).len() + 1);
        assert(decimal(n).len() == 1);
    }
}

/// The bytes that separate a raw name from its sequence number.
pub open spec fn separator() -> Seq<u8> {
    seq![95u8]
}

/// A numbered name `a_m` determines its name and its number.
pub proof fn lemma_numbered_name_split(a: Seq<u8>, m: nat, b: Seq<u8>, n: nat)
    requires
        a + separator() + decimal(m) == b + separator() + decimal(n),
    ensures
        a == b,
        m == n,
{
    let x = a + separator() + decimal(m);
    let y = b + separator() + decimal(n);
    lemma_decimal_digits(m);
    lemma_decimal_digits(n);
    let dm = decimal(m);
    let dn = decimal(n);
    let xa = a + separator();
    let yb = b + separator();
    assert(x == xa + dm);
    assert(y == yb + dn);
    assert(xa.len() == a.len() + 1);
    assert(yb.len() == b.len() + 1);
    if dm.len() < dn.len() {
        let k = a.len() as int;
        assert(x[k] == xa[k]);
        assert(xa[k] == 95u8);
        assert(y[k] == dn[k - yb.len()]);
        assert(false);
    } else if dn.len() < dm.len() {
        let k = b.len() as int;
        assert(y[k] == yb[k]);
        assert(yb[k] == 95u8);
        assert(x[k] == dm[k - xa.len()]);
        assert(false);
    }
    assert(a.len() == b.len());
    assert(a =~= x.subrange(0, a.len() as int));
    assert(b =~= y.subrange(0, b.len() as int));
    assert(dm =~= x.subrange(a.len() as int + 1, x.len() as int));
    assert(dn =~= y.subrange(b.len() as int + 1, y.len() as int));
    lemma_decimal_injective(m, n);
}

/// Appends the decimal digits of `n` to `out`.
pub fn push_decimal(out: &mut Vec<u8>, n: u64)
    ensures
        final(out)@ == old(out)@ + decimal(n as nat),
    decreases n,
{
    if n >= 10 {
        push_decimal(out, n / 10);
    }
    out.push(48u8 + (n % 10) as u8);
    assert(final(out)@ =~= old(out)@ + decimal(n as nat));
}

/// Appends the UTF-8 bytes of `s` to `out`.
pub fn push_str(out: &mut Vec<u8>, s: &str)
    ensures
        final(out)@ == old(out)@ + s.spec_bytes(),
{
    let b = s.as_bytes_vec();
    push_bytes(out, &b);
}

} // verus!
