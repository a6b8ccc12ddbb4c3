use crate::rng::{RandomSource, PROB_HALF, PROB_ONE};
use vstd::prelude::*;
use vstd::string::StringExecFns;

verus! {

/// The gene sequence single-point crossover gives the first child: the
/// first parent's genes before `point` and the second parent's from `point`
/// onward.
pub open spec fn crossed<T>(a: Seq<T>, b: Seq<T>, point: int) -> Seq<T> {
    a.take(point) + b.skip(point)
}

/// What `recombined_with` returns for the given parents and cut point:
/// the two crossed children when the point lies within both parents,
/// unchanged copies of both parents otherwise.
pub open spec fn recombination_at<T>(
    a: Seq<T>,
    b: Seq<T>,
    point: int,
    out: (Chromosome<T>, Chromosome<T>),
) -> bool {
    if 0 <= point && point < a.len() && point < b.len() {
        out.0.genes@ == crossed(a, b, point) && out.1.genes@ == crossed(b, a, point)
    } else {
        out.0.genes@ == a && out.1.genes@ == b
    }
}

/// The cut points `recombined_random_with` may pick for parents whose
/// shorter length is `min_len`: uniform over `[0, min_len - 1)`, forced to
/// `0` when that range would be empty.
pub open spec fn random_cut_point(min_len: int, p: int) -> bool {
    if min_len > 1 {
        0 <= p < min_len - 1
    } else {
        p == 0
    }
}

/// Chromosome contains genes and provides genetic operations on them.
#[derive(Debug, Clone, Default)]
pub struct Chromosome<T> {
    pub genes: Vec<T>,
}

impl<T> Chromosome<T> {
    pub fn new(genes: Vec<T>) -> (r: Self)
        ensures
            r.genes == genes,
    {
        Chromosome { genes }
    }
}

impl<T: Copy> Chromosome<T> {
    /// An element-by-element copy of this chromosome.
    pub fn duplicate(&self) -> (r: Self)
        ensures
            r.genes@ == self.genes@,
    {
        let mut genes: Vec<T> = Vec::new();
        let mut i: usize = 0;
        while i < self.genes.len()
            invariant
                i <= self.genes.len(),
                genes@ == self.genes@.take(i as int),
            decreases self.genes.len() - i,
        {
            genes.push(self.genes[i]);
            assert(genes@ =~= self.genes@.take(i + 1));
            i = i + 1;
        }
        assert(genes@ =~= self.genes@);
        Chromosome { genes }
    }

    /// recombined_with makes recombination at a specific point: within both
    /// parents' lengths the children swap gene suffixes there; an
    /// out-of-range point is a documented no-op returning unchanged copies
    /// of both parents.
    pub fn recombined_with(&self, that: &Chromosome<T>, point: usize) -> (r: (
        Chromosome<T>,
        Chromosome<T>,
    ))
        ensures
            recombination_at(self.genes@, that.genes@, point as int, r),
    {
        if point < self.genes.len() && point < that.genes.len() {
            (
                Chromosome { genes: build_crossed(&self.genes, &that.genes, point) },
                Chromosome { genes: build_crossed(&that.genes, &self.genes, point) },
            )
        } else {
            (self.duplicate(), that.duplicate())
        }
    }

    /// recombined_with makes recombination at a random point below the
    /// shorter parent's length.
    pub fn recombined_random_with(&self, that: &Chromosome<T>, rng: &mut RandomSource) -> (r: (
        Chromosome<T>,
        Chromosome<T>,
    ))
        ensures
            exists|p: int|
                #[trigger] recombination_at(self.genes@, that.genes@, p, r)
                    && random_cut_point(
                    vstd::math::min(self.genes@.len() as int, that.genes@.len() as int),
                    p,
                ),
    {
        let len = if self.genes.len() < that.genes.len() {
            self.genes.len()
        } else {
            that.genes.len()
        };
        let point: usize = if len > 1 {
            rng.draw_index(len - 1)
        } else {
            0
        };
        let r = self.recombined_with(that, point);
        assert(random_cut_point(
            vstd::math::min(self.genes@.len() as int, that.genes@.len() as int),
            point as int,
        ));
        r
    }
}

/// Copies `a`'s genes before `point` and `b`'s genes from `point` onward.
fn build_crossed<T: Copy>(a: &Vec<T>, b: &Vec<T>, point: usize) -> (r: Vec<T>)
    requires
        point <= a.len(),
        point <= b.len(),
    ensures
        r@ == crossed(a@, b@, point as int),
{
    let mut genes: Vec<T> = Vec::new();
    let mut i: usize = 0;
    while i < point
        invariant
            i <= point,
            point <= a.len(),
            genes@ == a@.take(i as int),
        decreases point - i,
    {
        genes.push(a[i]);
        assert(genes@ =~= a@.take(i + 1));
        i = i + 1;
    }
    let mut j: usize = point;
    while j < b.len()
        invariant
            point <= j <= b.len(),
            genes@ == a@.take(point as int) + b@.subrange(point as int, j as int),
        decreases b.len() - j,
    {
        genes.push(b[j]);
        assert(genes@ =~= a@.take(point as int) + b@.subrange(point as int, j + 1));
        j = j + 1;
    }
    assert(genes@ =~= crossed(a@, b@, point as int));
    genes
}

/// An element-by-element copy of a population.
pub fn duplicate_population<T: Copy>(population: &Vec<Chromosome<T>>) -> (r: Vec<Chromosome<T>>)
    ensures
        r@.len() == population@.len(),
        forall|j: int| 0 <= j < r@.len() ==> (#[trigger] r@[j]).genes@ == population@[j].genes@,
{
    let mut out: Vec<Chromosome<T>> = Vec::new();
    let mut i: usize = 0;
    while i < population.len()
        invariant
            i <= population@.len(),
            out@.len() == i,
            forall|j: int| 0 <= j < i ==> (#[trigger] out@[j]).genes@ == population@[j].genes@,
        decreases population@.len() - i,
    {
        out.push(population[i].duplicate());
        i = i + 1;
    }
    out
}

/// A mutation delta that is either one fixed value or a closed-open range
/// from which a concrete delta is drawn at mutation time.
#[derive(Clone, Copy, Debug)]
pub enum Superposition {
    Fixed(i64),
    RandomRange(i64, i64),
}

impl Superposition {
    /// A range delta must be nonempty.
    pub open spec fn wf(self) -> bool {
        match self {
            Superposition::Fixed(_) => true,
            Superposition::RandomRange(low, high) => low < high,
        }
    }

    /// The concrete deltas this specification can collapse to.
    pub open spec fn admits(self, v: i64) -> bool {
        match self {
            Superposition::Fixed(d) => v == d,
            Superposition::RandomRange(low, high) => low <= v < high,
        }
    }

    /// Whether the delta specification is usable: ranges must be nonempty.
    pub fn is_well_formed(&self) -> (r: bool)
        ensures
            r == self.wf(),
    {
        match *self {
            Superposition::Fixed(_) => true,
            Superposition::RandomRange(low, high) => low < high,
        }
    }

    /// Collapses the specification to one concrete delta: a fixed value is
    /// returned as it is, a range yields a uniform draw from it.
    pub fn collapse(&self, rng: &mut RandomSource) -> (r: i64)
        requires
            self.wf(),
        ensures
            self.admits(r),
    {
        match *self {
            Superposition::Fixed(d) => d,
            Superposition::RandomRange(low, high) => {
                let span = (high as i128 - low as i128) as u64;
                let offset = rng.next_below(span);
                ((low as i128) + (offset as i128)) as i64
            },
        }
    }
}

/// Addition clamped to the `i64` range.
pub open spec fn sat_add(a: int, b: int) -> int {
    if a + b > i64::MAX as int {
        i64::MAX as int
    } else if a + b < i64::MIN as int {
        i64::MIN as int
    } else {
        a + b
    }
}

/// Subtraction clamped to the `i64` range.
pub open spec fn sat_sub(a: int, b: int) -> int {
    if a - b > i64::MAX as int {
        i64::MAX as int
    } else if a - b < i64::MIN as int {
        i64::MIN as int
    } else {
        a - b
    }
}

fn add_saturating(a: i64, b: i64) -> (r: i64)
    ensures
        r == sat_add(a as int, b as int),
{
    if b >= 0 {
        if a > i64::MAX - b {
            i64::MAX
        } else {
            a + b
        }
    } else {
        if a < i64::MIN - b {
            i64::MIN
        } else {
            a + b
        }
    }
}

fn sub_saturating(a: i64, b: i64) -> (r: i64)
    ensures
        r == sat_sub(a as int, b as int),
{
    if b >= 0 {
        if a < i64::MIN + b {
            i64::MIN
        } else {
            a - b
        }
    } else {
        if a > i64::MAX + b {
            i64::MAX
        } else {
            a - b
        }
    }
}

/// One mutation step on a single gene: some delta the specification admits
/// was either added or subtracted, clamped to the `i64` range.
pub open spec fn perturbed(g: i64, delta: Superposition, m: i64) -> bool {
    exists|d: i64|
        #[trigger] delta.admits(d) && (m == sat_add(g as int, d as int) || m == sat_sub(
            g as int,
            d as int,
        ))
}

/// One whole mutation step over a gene sequence: the length is kept and
/// every gene is unchanged or perturbed by one admitted delta; chance `0`
/// changes nothing, chance `PROB_ONE` perturbs every gene.
pub open spec fn mutation_of(
    old_genes: Seq<i64>,
    delta: Seq<Superposition>,
    chance: u64,
    new_genes: Seq<i64>,
) -> bool {
    &&& new_genes.len() == old_genes.len()
    &&& forall|i: int|
        0 <= i < new_genes.len() ==> new_genes[i] == old_genes[i] || #[trigger] perturbed(
            old_genes[i],
            delta[i],
            new_genes[i],
        )
    &&& (chance == 0 ==> new_genes == old_genes)
    &&& (chance == PROB_ONE ==> forall|i: int|
        0 <= i < new_genes.len() ==> #[trigger] perturbed(old_genes[i], delta[i], new_genes[i]))
}

/// The character of one decimal digit.
pub open spec fn digit_char(d: int) -> char {
    if d == 0 {
        '0'
    } else if d == 1 {
        '1'
    } else if d == 2 {
        '2'
    } else if d == 3 {
        '3'
    } else if d == 4 {
        '4'
    } else if d == 5 {
        '5'
    } else if d == 6 {
        '6'
    } else if d == 7 {
        '7'
    } else if d == 8 {
        '8'
    } else {
        '9'
    }
}

/// The decimal rendering of a nonnegative number, most significant digit
/// first.
pub open spec fn dec_str(n: nat) -> Seq<char>
    decreases n,
{
    if n < 10 {
        seq![digit_char(n as int)]
    } else {
        proof {
            vstd::arithmetic::div_mod::lemma_div_is_strictly_smaller(n as int, 10);
        }
        dec_str((n / 10) as nat) + seq![digit_char((n % 10) as int)]
    }
}

/// The decimal rendering of a signed number.
pub open spec fn int_str(v: int) -> Seq<char> {
    if v < 0 {
        seq!['-'] + dec_str((-v) as nat)
    } else {
        dec_str(v as nat)
    }
}

/// The gene renderings joined by a comma and a space, with no trailing
/// separator.
pub open spec fn joined_genes(genes: Seq<i64>) -> Seq<char>
    decreases genes.len(),
{
    if genes.len() == 0 {
        Seq::empty()
    } else if genes.len() == 1 {
        int_str(genes[0] as int)
    } else {
        joined_genes(genes.drop_last()) + seq![',', ' '] + int_str(genes.last() as int)
    }
}

/// The canonical text rendering of a chromosome.
pub open spec fn rendered(genes: Seq<i64>) -> Seq<char> {
    if genes.len() == 0 {
        "Chromosome { }"@
    } else {
        "Chromosome { "@ + joined_genes(genes) + " }"@
    }
}

fn digit_str(d: u64) -> (r: &'static str)
    requires
        d < 10,
    ensures
        r@ == seq![digit_char(d as int)],
{
    proof {
        reveal_strlit("0");
        reveal_strlit("1");
        reveal_strlit("2");
        reveal_strlit("3");
        reveal_strlit("4");
        reveal_strlit("5");
        reveal_strlit("6");
        reveal_strlit("7");
        reveal_strlit("8");
        reveal_strlit("9");
    }
    if d == 0 {
        assert("0"@ =~= seq!['0']);
        "0"
    } else if d == 1 {
        assert("1"@ =~= seq!['1']);
        "1"
    } else if d == 2 {
        assert("2"@ =~= seq!['2']);
        "2"
    } else if d == 3 {
        assert("3"@ =~= seq!['3']);
        "3"
    } else if d == 4 {
        assert("4"@ =~= seq!['4']);
        "4"
    } else if d == 5 {
        assert("5"@ =~= seq!['5']);
        "5"
    } else if d == 6 {
        assert("6"@ =~= seq!['6']);
        "6"
    } else if d == 7 {
        assert("7"@ =~= seq!['7']);
        "7"
    } else if d == 8 {
        assert("8"@ =~= seq!['8']);
        "8"
    } else {
        assert("9"@ =~= seq!['9']);
        "9"
    }
}

fn push_dec(n: u64, out: &mut String)
    ensures
        final(out)@ == old(out)@ + dec_str(n as nat),
    decreases n,
{
    if n < 10 {
        out.append(digit_str(n));
    } else {
        push_dec(n / 10, out);
        out.append(digit_str(n % 10));
        assert(out@ =~= old(out)@ + dec_str(n as nat));
    }
}

fn append_gene(g: i64, out: &mut String)
    ensures
        final(out)@ == old(out)@ + int_str(g as int),
{
    if g < 0 {
        proof {
            reveal_strlit("-");
        }
        assert("-"@ =~= seq!['-']);
        out.append("-");
        let m = crate::selector::abs64(g);
        push_dec(m, out);
        assert(out@ =~= old(out)@ + int_str(g as int));
    } else {
        push_dec(g as u64, out);
    }
}

impl Chromosome<i64> {
    /// A canonical text rendering as `Chromosome { g0, g1, ..., gn }`:
    /// comma-and-space separated, no trailing separator after the last
    /// gene; an empty chromosome renders, guarded, as `Chromosome { }`.
    pub fn render(&self) -> (r: String)
        ensures
            r@ == rendered(self.genes@),
    {
        if self.genes.len() == 0 {
            return String::from_str("Chromosome { }");
        }
        let mut out = String::from_str("Chromosome { ");
        let mut i: usize = 0;
        while i < self.genes.len()
            invariant
                i <= self.genes@.len(),
                self.genes@.len() > 0,
                out@ == "Chromosome { "@ + joined_genes(self.genes@.take(i as int)),
            decreases self.genes@.len() - i,
        {
            if i > 0 {
                proof {
                    reveal_strlit(", ");
                }
                assert(", "@ =~= seq![',', ' ']);
                out.append(", ");
            }
            append_gene(self.genes[i], &mut out);
            proof {
                assert(self.genes@.take(i + 1).drop_last() =~= self.genes@.take(i as int));
                assert(self.genes@.take(i + 1).last() == self.genes@[i as int]);
                if i == 0 {
                    assert(self.genes@.take(1)[0] == self.genes@[0]);
                }
                assert(out@ =~= "Chromosome { "@ + joined_genes(self.genes@.take(i + 1)));
            }
            i = i + 1;
        }
        proof {
            assert(self.genes@.take(self.genes@.len() as int) =~= self.genes@);
        }
        out.append(" }");
        assert(out@ =~= rendered(self.genes@));
        out
    }

    /// Builds a chromosome of the given length with every gene drawn
    /// uniformly from `[low, high)`.
    pub fn new_random(size: usize, low: i64, high: i64, rng: &mut RandomSource) -> (r: Chromosome<
        i64,
    >)
        requires
            low < high,
        ensures
            r.genes@.len() == size,
            forall|i: int| 0 <= i < size ==> low <= #[trigger] r.genes@[i] < high,
    {
        let range = Superposition::RandomRange(low, high);
        let mut genes: Vec<i64> = Vec::new();
        let mut i: usize = 0;
        while i < size
            invariant
                i <= size,
                genes@.len() == i,
                range == Superposition::RandomRange(low, high),
                low < high,
                forall|j: int| 0 <= j < i ==> low <= #[trigger] genes@[j] < high,
            decreases size - i,
        {
            genes.push(range.collapse(rng));
            i = i + 1;
        }
        Chromosome { genes }
    }

    /// Gets a randomly mutated chromosome: each gene independently, with
    /// the given chance in parts of `PROB_ONE`, has a collapsed delta added
    /// or subtracted on a fair coin flip; `delta` supplies one specification
    /// per gene position.
    pub fn mutated(self, delta: &Vec<Superposition>, chance: u64, rng: &mut RandomSource) -> (r:
        Chromosome<i64>)
        requires
            delta@.len() >= self.genes@.len(),
            forall|i: int| 0 <= i < delta@.len() ==> (#[trigger] delta@[i]).wf(),
            chance <= PROB_ONE,
        ensures
            mutation_of(self.genes@, delta@, chance, r.genes@),
    {
        let mut genes: Vec<i64> = Vec::new();
        let mut i: usize = 0;
        while i < self.genes.len()
            invariant
                i <= self.genes@.len(),
                genes@.len() == i,
                delta@.len() >= self.genes@.len(),
                forall|j: int| 0 <= j < delta@.len() ==> (#[trigger] delta@[j]).wf(),
                chance <= PROB_ONE,
                forall|j: int|
                    0 <= j < i ==> genes@[j] == self.genes@[j] || #[trigger] perturbed(
                        self.genes@[j],
                        delta@[j],
                        genes@[j],
                    ),
                chance == 0 ==> genes@ =~= self.genes@.take(i as int),
                chance == PROB_ONE ==> forall|j: int|
                    0 <= j < i ==> #[trigger] perturbed(self.genes@[j], delta@[j], genes@[j]),
            decreases self.genes.len() - i,
        {
            let g = self.genes[i];
            let next = if rng.draw_bool(chance) {
                let d = delta[i].collapse(rng);
                let m = if rng.draw_bool(PROB_HALF) {
                    add_saturating(g, d)
                } else {
                    sub_saturating(g, d)
                };
                assert(perturbed(g, delta@[i as int], m)) by {
                    assert(delta@[i as int].admits(d));
                }
                m
            } else {
                g
            };
            genes.push(next);
            assert(chance == 0 ==> genes@ =~= self.genes@.take(i + 1));
            i = i + 1;
        }
        assert(chance == 0 ==> genes@ =~= self.genes@);
        Chromosome { genes }
    }
}

} // verus!
