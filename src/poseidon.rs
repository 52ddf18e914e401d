use crate::field::{decimal_value, fadd, fifth_power, fmul, is_canonical_numeral, modulus, Felt};
use vstd::prelude::*;

verus! {

/// The canonical representatives of a sequence of field elements.
pub open spec fn values(v: Seq<Felt>) -> Seq<int> {
    v.map_values(|f: Felt| f.value())
}

/// Every element of `v` is well formed.
pub open spec fn all_wf(v: Seq<Felt>) -> bool {
    forall|i: int| 0 <= i < v.len() ==> (#[trigger] v[i]).wf()
}

/// Constant addition: `state[i] + c[it + i]` for each position `i`.
pub open spec fn ark_spec(state: Seq<int>, c: Seq<int>, it: int) -> Seq<int> {
    Seq::new(state.len(), |i: int| fadd(state[i], c[it + i]))
}

/// Round `i` is a full round: it lies in the first or the last `f / 2`
/// rounds, outside the block of `p` partial rounds.
pub open spec fn is_full_round(f: int, p: int, i: int) -> bool {
    i < f / 2 || i >= f / 2 + p
}

/// Substitution: the fifth power of every element in a full round, of
/// element 0 alone in a partial round.
pub open spec fn sbox_spec(f: int, p: int, i: int, state: Seq<int>) -> Seq<int> {
    Seq::new(
        state.len(),
        |j: int|
            if is_full_round(f, p, i) || j == 0 {
                fifth_power(state[j])
            } else {
                state[j]
            },
    )
}

/// `sum_{j < n} row[j] * state[j]` in the field, accumulated from `j = 0`.
pub open spec fn dot(row: Seq<int>, state: Seq<int>, n: nat) -> int
    decreases n,
{
    if n == 0 {
        0
    } else {
        fadd(dot(row, state, (n - 1) as nat), fmul(row[n - 1], state[n - 1]))
    }
}

/// Linear mixing: the product of the matrix `m` with `state`.
pub open spec fn mix_spec(state: Seq<int>, m: Seq<Seq<int>>) -> Seq<int> {
    Seq::new(state.len(), |i: int| dot(m[i], state, state.len()))
}

/// One round: constant addition at offset `i * width`, substitution, mixing.
pub open spec fn round_spec(c: Seq<int>, m: Seq<Seq<int>>, f: int, p: int, i: int, state: Seq<int>) -> Seq<int> {
    mix_spec(sbox_spec(f, p, i, ark_spec(state, c, i * state.len())), m)
}

/// The state after the first `n` rounds.
pub open spec fn permute(c: Seq<int>, m: Seq<Seq<int>>, f: int, p: int, state: Seq<int>, n: nat) -> Seq<int>
    decreases n,
{
    if n == 0 {
        state
    } else {
        round_spec(c, m, f, p, n - 1, permute(c, m, f, p, state, (n - 1) as nat))
    }
}

/// The initial state: a zero capacity element followed by the inputs.
pub open spec fn initial_state(inp: Seq<int>) -> Seq<int> {
    seq![0int].add(inp)
}

/// The digest: element 0 after `f + p` rounds from the initial state.
pub open spec fn digest(c: Seq<int>, m: Seq<Seq<int>>, f: int, p: int, inp: Seq<int>) -> int {
    permute(c, m, f, p, initial_state(inp), (f + p) as nat)[0]
}

/// The number of full rounds, for every arity.
pub open spec fn full_rounds() -> usize {
    8
}

/// The number of partial rounds of each arity.
pub open spec fn partial_rounds() -> Seq<usize> {
    seq![56usize, 57, 56, 60, 60, 63, 64, 63]
}

/// The characters of each string of a row.
pub open spec fn row_text(r: Seq<&str>) -> Seq<Seq<char>> {
    r.map_values(|s: &str| s@)
}

/// The characters of the round-constant numerals.
pub open spec fn c_text(c: Seq<Vec<&str>>) -> Seq<Seq<Seq<char>>> {
    c.map_values(|r: Vec<&str>| row_text(r@))
}

/// The characters of the mixing-matrix numerals.
pub open spec fn m_text(m: Seq<Vec<Vec<&str>>>) -> Seq<Seq<Seq<Seq<char>>>> {
    m.map_values(|mat: Vec<Vec<&str>>| mat@.map_values(|r: Vec<&str>| row_text(r@)))
}

/// Every numeral of a row is canonical.
pub open spec fn row_ok(r: Seq<Seq<char>>) -> bool {
    forall|j: int| 0 <= j < r.len() ==> is_canonical_numeral(#[trigger] r[j])
}

/// The field values of a row of numerals.
pub open spec fn row_values(r: Seq<Seq<char>>) -> Seq<int> {
    r.map_values(|s: Seq<char>| decimal_value(s) % modulus())
}

/// Round constants of arity `a`: `(8 + partial_rounds()[a]) * (a + 2)` numerals.
pub open spec fn c_row_ok(a: int, r: Seq<Seq<char>>) -> bool {
    r.len() == (full_rounds() + partial_rounds()[a]) * (a + 2) && row_ok(r)
}

/// Mixing matrix of arity `a`: `a + 2` rows of `a + 2` numerals.
pub open spec fn m_mat_ok(a: int, mat: Seq<Seq<Seq<char>>>) -> bool {
    &&& mat.len() == a + 2
    &&& forall|r: int| 0 <= r < a + 2 ==> (#[trigger] mat[r]).len() == a + 2 && row_ok(mat[r])
}

/// The numeral tables have one entry per arity, of the right shape, and
/// every numeral is canonical.
pub open spec fn text_ok(c: Seq<Seq<Seq<char>>>, m: Seq<Seq<Seq<Seq<char>>>>) -> bool {
    &&& c.len() == partial_rounds().len()
    &&& m.len() == partial_rounds().len()
    &&& forall|a: int| 0 <= a < c.len() ==> c_row_ok(a, #[trigger] c[a])
    &&& forall|a: int| 0 <= a < m.len() ==> m_mat_ok(a, #[trigger] m[a])
}

/// Parses one row of numerals.
fn parse_row(row: &Vec<&str>) -> (r: Option<Vec<Felt>>)
    ensures
        r is Some <==> row_ok(row_text(row@)),
        r is Some ==> all_wf(r->Some_0@) && values(r->Some_0@) == row_values(row_text(row@)),
{
    let ghost text = row_text(row@);
    let mut out: Vec<Felt> = Vec::new();
    let mut j: usize = 0;
    while j < row.len()
        invariant
            text == row_text(row@),
            0 <= j <= row@.len(),
            out@.len() == j,
            all_wf(out@),
            forall|k: int| 0 <= k < j ==> is_canonical_numeral(#[trigger] text[k]),
            values(out@) =~= row_values(text).subrange(0, j as int),
        decreases row@.len() - j,
    {
        match Felt::from_decimal(row[j]) {
            Some(x) => {
                out.push(x);
            },
            None => {
                assert(!is_canonical_numeral(text[j as int]));
                return None;
            },
        }
        j = j + 1;
    }
    assert(values(out@) =~= row_values(text));
    Some(out)
}

/// Builds the constant table from its decimal numerals: round constants and
/// mixing matrices for each arity. `None` when a table has the wrong shape
/// or a numeral is not canonical.
pub fn load_constants(c_str: &Vec<Vec<&str>>, m_str: &Vec<Vec<Vec<&str>>>) -> (r: Option<Constants>)
    ensures
        r is Some <==> text_ok(c_text(c_str@), m_text(m_str@)),
        r is Some ==> {
            let k = r->Some_0;
            &&& k.wf()
            &&& k.n_rounds_f == full_rounds()
            &&& k.n_rounds_p@ == partial_rounds()
            &&& k.c_view() == c_text(c_str@).map_values(|row: Seq<Seq<char>>| row_values(row))
            &&& k.m_view() == m_text(m_str@).map_values(
                |mat: Seq<Seq<Seq<char>>>| mat.map_values(|row: Seq<Seq<char>>| row_values(row)),
            )
        },
{
    let ghost ct = c_text(c_str@);
    let ghost mt = m_text(m_str@);
    let n_rounds_f: usize = 8;
    let n_rounds_p: Vec<usize> = vec![56, 57, 56, 60, 60, 63, 64, 63];
    assert(n_rounds_p@ =~= partial_rounds());
    assert(forall|a: int| 0 <= a < 8 ==> #[trigger] partial_rounds()[a] <= 64);
    let n = n_rounds_p.len();
    if c_str.len() != n || m_str.len() != n {
        return None;
    }
    let mut c: Vec<Vec<Felt>> = Vec::new();
    let mut a: usize = 0;
    while a < n
        invariant
            n == 8,
            n_rounds_p@ == partial_rounds(),
            n_rounds_f == full_rounds(),
            forall|b: int| 0 <= b < 8 ==> #[trigger] partial_rounds()[b] <= 64,
            ct == c_text(c_str@),
            c_str@.len() == n,
            0 <= a <= n,
            c@.len() == a,
            forall|b: int| 0 <= b < a ==> c_row_ok(b, #[trigger] ct[b]),
            forall|b: int|
                0 <= b < a ==> all_wf((#[trigger] c@[b])@) && values(c@[b]@) == row_values(ct[b]),
        decreases n - a,
    {
        let p = n_rounds_p[a];
        assert(p == partial_rounds()[a as int]);
        assert((n_rounds_f + p) * (a + 2) <= 72 * 10) by (nonlinear_arith)
            requires
                n_rounds_f == 8,
                p <= 64,
                a < 8,
        ;
        let want = (n_rounds_f + p) * (a + 2);
        assert(ct[a as int] == row_text(c_str@[a as int]@));
        if c_str[a].len() != want {
            assert(!c_row_ok(a as int, ct[a as int]));
            return None;
        }
        match parse_row(&c_str[a]) {
            Some(row) => {
                c.push(row);
            },
            None => {
                assert(!c_row_ok(a as int, ct[a as int]));
                return None;
            },
        }
        a = a + 1;
    }
    let mut m: Vec<Vec<Vec<Felt>>> = Vec::new();
    let mut a: usize = 0;
    while a < n
        invariant
            n == 8,
            mt == m_text(m_str@),
            m_str@.len() == n,
            0 <= a <= n,
            m@.len() == a,
            forall|b: int| 0 <= b < a ==> m_mat_ok(b, #[trigger] mt[b]),
            forall|b: int|
                0 <= b < a ==> (#[trigger] m@[b])@.len() == b + 2 && forall|r: int|
                    0 <= r < b + 2 ==> all_wf((#[trigger] m@[b]@[r])@) && values(m@[b]@[r]@)
                        == row_values(mt[b][r]),
        decreases n - a,
    {
        let mat = &m_str[a];
        assert(mt[a as int] == mat@.map_values(|r: Vec<&str>| row_text(r@)));
        if mat.len() != a + 2 {
            assert(!m_mat_ok(a as int, mt[a as int]));
            return None;
        }
        let mut rows: Vec<Vec<Felt>> = Vec::new();
        let mut r: usize = 0;
        while r < a + 2
            invariant
                a < n,
                n == 8,
                mt == m_text(m_str@),
                m_str@.len() == n,
                mat@ == m_str@[a as int]@,
                mt[a as int] == mat@.map_values(|r: Vec<&str>| row_text(r@)),
                mat@.len() == a + 2,
                0 <= r <= a + 2,
                rows@.len() == r,
                forall|q: int|
                    0 <= q < r ==> (#[trigger] mt[a as int][q]).len() == a + 2 && row_ok(mt[a as int][q]),
                forall|q: int|
                    0 <= q < r ==> all_wf((#[trigger] rows@[q])@) && values(rows@[q]@) == row_values(mt[a as int][q]),
            decreases a + 2 - r,
        {
            assert(mt[a as int][r as int] == row_text(mat@[r as int]@));
            if mat[r].len() != a + 2 {
                assert(!m_mat_ok(a as int, mt[a as int]));
                return None;
            }
            match parse_row(&mat[r]) {
                Some(row) => {
                    rows.push(row);
                },
                None => {
                    assert(!m_mat_ok(a as int, mt[a as int]));
                    return None;
                },
            }
            r = r + 1;
        }
        m.push(rows);
        a = a + 1;
    }
    let k = Constants { c, m, n_rounds_f, n_rounds_p };
    assert forall|b: int| 0 <= b < 8 implies #[trigger] k.m_view()[b] =~= mt[b].map_values(
        |row: Seq<Seq<char>>| row_values(row),
    ) by {
        assert(k.m_view()[b] == k.m@[b]@.map_values(|r: Vec<Felt>| values(r@)));
    }
    assert(k.c_view() =~= ct.map_values(|row: Seq<Seq<char>>| row_values(row)));
    assert(k.m_view() =~= mt.map_values(
        |mat: Seq<Seq<Seq<char>>>| mat.map_values(|row: Seq<Seq<char>>| row_values(row)),
    ));
    Some(k)
}

/// The round constants and mixing matrices, indexed by arity `a` (input
/// length `a + 1`, state width `a + 2`), with the round counts.
pub struct Constants {
    pub c: Vec<Vec<Felt>>,
    pub m: Vec<Vec<Vec<Felt>>>,
    pub n_rounds_f: usize,
    pub n_rounds_p: Vec<usize>,
}

impl Constants {
    /// The round constants of each arity, as field values.
    pub open spec fn c_view(self) -> Seq<Seq<int>> {
        self.c@.map_values(|r: Vec<Felt>| values(r@))
    }

    /// The mixing matrix of each arity, as field values.
    pub open spec fn m_view(self) -> Seq<Seq<Seq<int>>> {
        self.m@.map_values(|mat: Vec<Vec<Felt>>| mat@.map_values(|r: Vec<Felt>| values(r@)))
    }

    /// Every arity has `(n_rounds_f + n_rounds_p[a]) * (a + 2)` round
    /// constants and a square mixing matrix of dimension `a + 2`.
    pub open spec fn wf(self) -> bool {
        &&& self.n_rounds_p@.len() > 0
        &&& self.c@.len() == self.n_rounds_p@.len()
        &&& self.m@.len() == self.n_rounds_p@.len()
        &&& forall|a: int|
            0 <= a < self.c@.len() ==> {
                &&& (#[trigger] self.c@[a])@.len() == (self.n_rounds_f + self.n_rounds_p@[a]) * (a + 2)
                &&& all_wf(self.c@[a]@)
            }
        &&& forall|a: int|
            0 <= a < self.m@.len() ==> {
                &&& (#[trigger] self.m@[a])@.len() == a + 2
                &&& forall|r: int|
                    0 <= r < a + 2 ==> {
                        &&& (#[trigger] self.m@[a]@[r])@.len() == a + 2
                        &&& all_wf(self.m@[a]@[r]@)
                    }
            }
    }
}

/// The Poseidon hash over the BN254 scalar field, with its constant table.
pub struct Poseidon {
    constants: Constants,
}

impl Poseidon {
    /// The constant table that this hasher uses.
    pub closed spec fn table(self) -> Constants {
        self.constants
    }

    /// A hasher over the given constant table.
    pub fn new(constants: Constants) -> (r: Poseidon)
        requires
            constants.wf(),
        ensures
            r.table() == constants,
    {
        Poseidon { constants }
    }

    /// Adds `c[it + i]` into `state[i]` for every position `i`.
    pub fn ark(&self, state: &mut Vec<Felt>, c: &[Felt], it: usize)
        requires
            it + old(state).len() <= c@.len(),
            all_wf(old(state)@),
            all_wf(c@),
        ensures
            final(state)@.len() == old(state)@.len(),
            all_wf(final(state)@),
            values(final(state)@) == ark_spec(values(old(state)@), values(c@), it as int),
    {
        let n = state.len();
        let c_len = c.len();
        let mut i: usize = 0;
        while i < n
            invariant
                n == old(state)@.len(),
                c_len == c@.len(),
                state@.len() == n,
                it + n <= c@.len(),
                all_wf(c@),
                0 <= i <= n,
                all_wf(state@),
                forall|j: int| 0 <= j < i ==> (#[trigger] state@[j]).value() == fadd(old(state)@[j].value(), c@[it + j].value()),
                forall|j: int| i <= j < n ==> #[trigger] state@[j] == old(state)@[j],
            decreases n - i,
        {
            let x = state[i].add(&c[it + i]);
            state.set(i, x);
            i = i + 1;
        }
        assert(values(state@) =~= ark_spec(values(old(state)@), values(c@), it as int));
    }


    /// Applies `x -> x^5` to every element in a full round, and to element 0
    /// alone in a partial round (round `i` of `n_rounds_f + n_rounds_p`).
    pub fn sbox(&self, n_rounds_f: usize, n_rounds_p: usize, state: &mut Vec<Felt>, i: usize)
        requires
            old(state)@.len() > 0,
            all_wf(old(state)@),
        ensures
            final(state)@.len() == old(state)@.len(),
            all_wf(final(state)@),
            values(final(state)@) == sbox_spec(n_rounds_f as int, n_rounds_p as int, i as int, values(old(state)@)),
    {
        let half = n_rounds_f / 2;
        if i < half || i - half >= n_rounds_p {
            let n = state.len();
            let mut j: usize = 0;
            while j < n
                invariant
                    n == old(state)@.len(),
                    state@.len() == n,
                    0 <= j <= n,
                    all_wf(state@),
                    forall|k: int| 0 <= k < j ==> (#[trigger] state@[k]).value() == fifth_power(old(state)@[k].value()),
                    forall|k: int| j <= k < n ==> #[trigger] state@[k] == old(state)@[k],
                decreases n - j,
            {
                let x = state[j].fifth_power();
                state.set(j, x);
                j = j + 1;
            }
        } else {
            let x = state[0].fifth_power();
            state.set(0, x);
        }
        assert(values(state@) =~= sbox_spec(n_rounds_f as int, n_rounds_p as int, i as int, values(old(state)@)));
    }

    /// The product of the matrix `m` with `state`, as a new state.
    pub fn mix(&self, state: &Vec<Felt>, m: &[Vec<Felt>]) -> (r: Vec<Felt>)
        requires
            m@.len() >= state@.len(),
            forall|i: int| 0 <= i < state@.len() ==> (#[trigger] m@[i])@.len() >= state@.len() && all_wf(m@[i]@),
            all_wf(state@),
        ensures
            r@.len() == state@.len(),
            all_wf(r@),
            values(r@) == mix_spec(values(state@), m@.map_values(|row: Vec<Felt>| values(row@))),
    {
        let ghost mv = m@.map_values(|row: Vec<Felt>| values(row@));
        let ghost sv = values(state@);
        let n = state.len();
        let mut new_state: Vec<Felt> = Vec::new();
        let mut i: usize = 0;
        while i < n
            invariant
                n == state@.len(),
                m@.len() >= n,
                forall|k: int| 0 <= k < n ==> (#[trigger] m@[k])@.len() >= n && all_wf(m@[k]@),
                all_wf(state@),
                sv == values(state@),
                mv == m@.map_values(|row: Vec<Felt>| values(row@)),
                0 <= i <= n,
                new_state@.len() == i,
                all_wf(new_state@),
                forall|k: int| 0 <= k < i ==> (#[trigger] new_state@[k]).value() == dot(mv[k], sv, n as nat),
            decreases n - i,
        {
            let row = &m[i];
            let mut acc = Felt::zero();
            let mut j: usize = 0;
            while j < n
                invariant
                    n == state@.len(),
                    row@.len() >= n,
                    all_wf(row@),
                    all_wf(state@),
                    sv == values(state@),
                    mv[i as int] == values(row@),
                    0 <= j <= n,
                    acc.wf(),
                    acc.value() == dot(mv[i as int], sv, j as nat),
                decreases n - j,
            {
                let t = row[j].mul(&state[j]);
                acc = acc.add(&t);
                j = j + 1;
            }
            new_state.push(acc);
            i = i + 1;
        }
        assert(values(new_state@) =~= mix_spec(sv, mv));
        new_state
    }

    /// The table is well formed.
    pub open spec fn wf(self) -> bool {
        self.table().wf()
    }

    /// The digest of the inputs `inp` under this table, for an arity that it
    /// supports.
    pub open spec fn digest_of(self, inp: Seq<int>) -> int {
        let a = inp.len() - 1;
        digest(
            self.table().c_view()[a],
            self.table().m_view()[a],
            self.table().n_rounds_f as int,
            self.table().n_rounds_p@[a] as int,
            inp,
        )
    }

    /// The input lengths that `hash` accepts.
    pub open spec fn accepts_len(self, k: int) -> bool {
        1 <= k < self.table().n_rounds_p@.len() - 1
    }

    /// Hashes `1..n_rounds_p.len() - 1` field elements into one.
    pub fn hash(&self, inp: Vec<Felt>) -> (r: Result<Felt, String>)
        requires
            self.wf(),
            all_wf(inp@),
        ensures
            r is Ok <==> self.accepts_len(inp@.len() as int),
            r is Err ==> r->Err_0@ == "Wrong inputs length"@,
            r is Ok ==> r->Ok_0.wf() && r->Ok_0.value() == self.digest_of(values(inp@)),
    {
        let k = inp.len();
        let np = self.constants.n_rounds_p.len();
        if k == 0 || k >= np - 1 {
            return Err("Wrong inputs length".to_owned());
        }
        let t = k + 1;
        let a = k - 1;
        let f = self.constants.n_rounds_f;
        let p = self.constants.n_rounds_p[a];
        let c = self.constants.c[a].as_slice();
        let m = self.constants.m[a].as_slice();
        let ghost tab = self.table();
        let ghost cv = tab.c_view()[a as int];
        let ghost mv = tab.m_view()[a as int];
        let ghost init = initial_state(values(inp@));
        let c_len = c.len();
        assert(c_len == (f + p) * t);
        assert(all_wf(c@));
        assert(values(c@) == cv);
        assert(m@.map_values(|row: Vec<Felt>| values(row@)) =~= mv);
        assert(f + p <= (f + p) * t) by (nonlinear_arith)
            requires t >= 2;
        let total = f + p;

        let mut state: Vec<Felt> = Vec::new();
        state.push(Felt::zero());
        let mut j: usize = 0;
        while j < k
            invariant
                k == inp@.len(),
                all_wf(inp@),
                0 <= j <= k,
                state@.len() == j + 1,
                all_wf(state@),
                values(state@) =~= initial_state(values(inp@)).subrange(0, j + 1),
            decreases k - j,
        {
            state.push(inp[j]);
            j = j + 1;
        }
        assert(values(state@) =~= init);

        let mut i: usize = 0;
        while i < total
            invariant
                total == f + p,
                t >= 2,
                c_len == c@.len(),
                c@.len() == total * t,
                all_wf(c@),
                values(c@) == cv,
                m@.map_values(|row: Vec<Felt>| values(row@)) == mv,
                m@.len() == t,
                forall|r: int| 0 <= r < t ==> (#[trigger] m@[r])@.len() == t && all_wf(m@[r]@),
                0 <= i <= total,
                state@.len() == t,
                all_wf(state@),
                values(state@) == permute(cv, mv, f as int, p as int, init, i as nat),
            decreases total - i,
        {
            assert(i * t + t <= total * t) by (nonlinear_arith)
                requires i < total;
            let ghost before = values(state@);
            self.ark(&mut state, c, i * t);
            assert(state@.len() == t);
            self.sbox(f, p, &mut state, i);
            state = self.mix(&state, m);
            assert(values(state@) == round_spec(cv, mv, f as int, p as int, i as int, before));
            i = i + 1;
        }
        Ok(state[0])
    }
}

} // verus!
