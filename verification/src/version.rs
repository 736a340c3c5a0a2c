//! Semantic versions and their precedence.
use crate::text::{chars_of, split_at_first, split_on};
use vstd::prelude::*;

verus! {

broadcast use vstd::string::group_string_axioms;

// ---------------------------------------------------------------------------
// Orders
// ---------------------------------------------------------------------------

/// How one thing stands to another.
#[derive(Debug, Clone, Copy, PartialEq, Eq, Structural)]
pub enum Order {
    Less,
    Equal,
    Greater,
}

impl Order {
    /// How the other thing stands to the one.
    pub open spec fn mirrored(self) -> Order {
        match self {
            Order::Less => Order::Greater,
            Order::Equal => Order::Equal,
            Order::Greater => Order::Less,
        }
    }

    fn mirror(self) -> (m: Order)
        ensures
            m == self.mirrored(),
    {
        match self {
            Order::Less => Order::Greater,
            Order::Equal => Order::Equal,
            Order::Greater => Order::Less,
        }
    }
}

pub open spec fn nat_order(a: nat, b: nat) -> Order {
    if a < b {
        Order::Less
    } else if a == b {
        Order::Equal
    } else {
        Order::Greater
    }
}

pub open spec fn char_order(a: char, b: char) -> Order {
    if a < b {
        Order::Less
    } else if a == b {
        Order::Equal
    } else {
        Order::Greater
    }
}

/// By the first items that differ; where one runs out of items, it is the lesser.
pub open spec fn lexicographic<A>(a: Seq<A>, b: Seq<A>, order: spec_fn(A, A) -> Order) -> Order
    decreases a.len(),
{
    if a.len() == 0 {
        if b.len() == 0 {
            Order::Equal
        } else {
            Order::Less
        }
    } else if b.len() == 0 {
        Order::Greater
    } else {
        match order(a[0], b[0]) {
            Order::Equal => lexicographic(a.drop_first(), b.drop_first(), order),
            decided => decided,
        }
    }
}

// ---------------------------------------------------------------------------
// Versions
// ---------------------------------------------------------------------------

/// What decides the precedence of a version.
pub struct Version {
    /// Major, minor and patch, and whatever follows them.
    pub numbers: Seq<nat>,
    /// The identifiers of a pre-release; `None` for a release.
    pub pre: Option<Seq<Seq<char>>>,
}

/// The numbers among some texts; whatever is none is left out.
pub open spec fn decimal_fields(texts: Seq<Seq<char>>) -> Seq<nat>
    decreases texts.len(),
{
    if texts.len() == 0 {
        Seq::empty()
    } else if crate::text::is_decimal(texts.last()) {
        decimal_fields(texts.drop_last()).push(crate::text::decimal_value(texts.last()))
    } else {
        decimal_fields(texts.drop_last())
    }
}

/// The text before the first `c`, or all of it.
pub open spec fn before_first(s: Seq<char>, c: char) -> Seq<char> {
    s.take(crate::text::span(s, c) as int)
}

/// The text behind the first `c`, if there is one.
pub open spec fn behind_first(s: Seq<char>, c: char) -> Option<Seq<char>> {
    if crate::text::span(s, c) < s.len() {
        Some(s.skip(crate::text::span(s, c) as int + 1))
    } else {
        None
    }
}

/// Reads a version: `1.2.3`, with `-` and the identifiers of a pre-release behind it, and with
/// `+` and the metadata of a build behind that, which does not count.
pub open spec fn version_of(text: Seq<char>) -> Version {
    let version = before_first(text, '+');
    Version {
        numbers: decimal_fields(crate::text::fields(before_first(version, '-'), '.')),
        pre: match behind_first(version, '-') {
            Some(identifiers) => Some(crate::text::fields(identifiers, '.')),
            None => None,
        },
    }
}

/// Numbers in the order of their values.
pub open spec fn by_value() -> spec_fn(nat, nat) -> Order {
    |x: nat, y: nat| nat_order(x, y)
}

/// Characters in the order of their codes.
pub open spec fn by_code() -> spec_fn(char, char) -> Order {
    |x: char, y: char| char_order(x, y)
}

/// Identifiers of a pre-release in the order of [`identifier_order`].
pub open spec fn by_identifier() -> spec_fn(Seq<char>, Seq<char>) -> Order {
    |x: Seq<char>, y: Seq<char>| identifier_order(x, y)
}

pub open spec fn numbers_order(a: Seq<nat>, b: Seq<nat>) -> Order {
    lexicographic(a, b, by_value())
}

pub open spec fn text_order(a: Seq<char>, b: Seq<char>) -> Order {
    lexicographic(a, b, by_code())
}

/// Identifiers of a pre-release: numbers by their value, other texts by their characters, and
/// numbers before other texts.
pub open spec fn identifier_order(a: Seq<char>, b: Seq<char>) -> Order {
    match (crate::text::is_decimal(a), crate::text::is_decimal(b)) {
        (true, true) => nat_order(crate::text::decimal_value(a), crate::text::decimal_value(b)),
        (true, false) => Order::Less,
        (false, true) => Order::Greater,
        (false, false) => text_order(a, b),
    }
}

pub open spec fn identifiers_order(a: Seq<Seq<char>>, b: Seq<Seq<char>>) -> Order {
    lexicographic(a, b, by_identifier())
}

/// A pre-release comes before its release.
pub open spec fn pre_order(a: Option<Seq<Seq<char>>>, b: Option<Seq<Seq<char>>>) -> Order {
    match (a, b) {
        (None, None) => Order::Equal,
        (None, Some(_)) => Order::Greater,
        (Some(_), None) => Order::Less,
        (Some(x), Some(y)) => identifiers_order(x, y),
    }
}

/// The precedence of versions: by their numbers, and else by their pre-releases.
pub open spec fn precedence(a: Version, b: Version) -> Order {
    match numbers_order(a.numbers, b.numbers) {
        Order::Equal => pre_order(a.pre, b.pre),
        decided => decided,
    }
}

/// Whether one version comes behind another.
pub open spec fn is_later(a: Version, b: Version) -> bool {
    precedence(a, b) == Order::Greater
}

// ---------------------------------------------------------------------------
// Comparing
// ---------------------------------------------------------------------------

fn is_decimal_text(digits: &Vec<char>) -> (b: bool)
    ensures
        b == crate::text::is_decimal(digits@),
{
    let len: usize = digits.len();
    let mut i: usize = 0;
    while i < len
        invariant
            len == digits@.len(),
            i <= len,
            forall|j: int| 0 <= j < i ==> crate::text::is_digit(#[trigger] digits@[j]),
        decreases len - i,
    {
        if digits[i] < '0' || digits[i] > '9' {
            assert(!crate::text::is_digit(digits@[i as int]));
            return false;
        }
        i += 1;
    }
    len > 0
}

/// Compares the numbers behind two texts of digits, of which the first is not the shorter one.
fn compare_aligned(long: &Vec<char>, short: &Vec<char>) -> (order: Order)
    requires
        crate::text::is_decimal(long@),
        crate::text::is_decimal(short@),
        long@.len() >= short@.len(),
    ensures
        order == nat_order(
            crate::text::decimal_value(long@),
            crate::text::decimal_value(short@),
        ),
{
    let total: usize = long.len();
    let len: usize = short.len();
    let extra: usize = total - len;
    let mut order = Order::Equal;
    let mut i: usize = 0;
    assert(long@.take(0) =~= Seq::empty());
    while i < extra
        invariant
            i <= extra,
            extra <= long@.len(),
            crate::text::is_decimal(long@),
            order == nat_order(crate::text::decimal_value(long@.take(i as int)), 0),
        decreases extra - i,
    {
        assert(long@.take(i + 1).drop_last() =~= long@.take(i as int));
        assert(crate::text::is_digit(long@[i as int]));
        if long[i] != '0' {
            order = Order::Greater;
        }
        i += 1;
    }
    let mut j: usize = 0;
    assert(short@.take(0) =~= Seq::empty());
    assert(crate::text::decimal_value(short@.take(0)) == 0);
    while j < len
        invariant
            j <= len,
            len == short@.len(),
            total == long@.len(),
            extra + len == total,
            crate::text::is_decimal(long@),
            crate::text::is_decimal(short@),
            order == nat_order(
                crate::text::decimal_value(long@.take(extra + j)),
                crate::text::decimal_value(short@.take(j as int)),
            ),
        decreases len - j,
    {
        let x = long[extra + j];
        let y = short[j];
        assert(long@.take(extra + j + 1).drop_last() =~= long@.take(extra + j));
        assert(short@.take(j + 1).drop_last() =~= short@.take(j as int));
        assert(crate::text::is_digit(long@[extra + j]));
        assert(crate::text::is_digit(short@[j as int]));
        match order {
            Order::Equal => {
                order = if x < y {
                    Order::Less
                } else if x == y {
                    Order::Equal
                } else {
                    Order::Greater
                };
            },
            _ => {},
        }
        j += 1;
    }
    assert(long@.take(extra + len) =~= long@);
    assert(short@.take(len as int) =~= short@);
    order
}

/// Compares the numbers behind two texts of digits.
fn compare_decimals(a: &Vec<char>, b: &Vec<char>) -> (order: Order)
    requires
        crate::text::is_decimal(a@),
        crate::text::is_decimal(b@),
    ensures
        order == nat_order(crate::text::decimal_value(a@), crate::text::decimal_value(b@)),
{
    if a.len() >= b.len() {
        compare_aligned(a, b)
    } else {
        compare_aligned(b, a).mirror()
    }
}

fn compare_texts(a: &Vec<char>, b: &Vec<char>) -> (order: Order)
    ensures
        order == text_order(a@, b@),
{
    let mut i: usize = 0;
    assert(a@.skip(0) =~= a@ && b@.skip(0) =~= b@);
    while i < a.len() && i < b.len()
        invariant
            i <= a@.len(),
            i <= b@.len(),
            text_order(a@.skip(i as int), b@.skip(i as int)) == text_order(a@, b@),
        decreases a@.len() - i,
    {
        assert(a@.skip(i as int)[0] == a@[i as int]);
        assert(b@.skip(i as int)[0] == b@[i as int]);
        let x = a[i];
        let y = b[i];
        if x < y {
            return Order::Less;
        }
        if x > y {
            return Order::Greater;
        }
        assert(a@.skip(i as int).drop_first() =~= a@.skip(i + 1));
        assert(b@.skip(i as int).drop_first() =~= b@.skip(i + 1));
        i += 1;
    }
    if i < b.len() {
        Order::Less
    } else if i < a.len() {
        Order::Greater
    } else {
        Order::Equal
    }
}

fn compare_identifiers(a: &str, b: &str) -> (order: Order)
    ensures
        order == identifier_order(a@, b@),
{
    let x = chars_of(a);
    let y = chars_of(b);
    match (is_decimal_text(&x), is_decimal_text(&y)) {
        (true, true) => compare_decimals(&x, &y),
        (true, false) => Order::Less,
        (false, true) => Order::Greater,
        (false, false) => compare_texts(&x, &y),
    }
}

/// Compares the identifiers of two pre-releases.
fn compare_pre(a: &str, b: &str) -> (order: Order)
    ensures
        order == identifiers_order(crate::text::fields(a@, '.'), crate::text::fields(b@, '.')),
{
    let x = split_on(a, '.');
    let y = split_on(b, '.');
    let ghost vx = crate::text::views(x@);
    let ghost vy = crate::text::views(y@);
    let mut i: usize = 0;
    assert(vx.skip(0) =~= vx && vy.skip(0) =~= vy);
    while i < x.len() && i < y.len()
        invariant
            i <= x@.len(),
            i <= y@.len(),
            vx == crate::text::views(x@),
            vy == crate::text::views(y@),
            vx == crate::text::fields(a@, '.'),
            vy == crate::text::fields(b@, '.'),
            identifiers_order(vx.skip(i as int), vy.skip(i as int)) == identifiers_order(vx, vy),
        decreases x@.len() - i,
    {
        assert(vx.skip(i as int)[0] == x@[i as int]@);
        assert(vy.skip(i as int)[0] == y@[i as int]@);
        match compare_identifiers(x[i], y[i]) {
            Order::Equal => {},
            decided => return decided,
        }
        assert(vx.skip(i as int).drop_first() =~= vx.skip(i + 1));
        assert(vy.skip(i as int).drop_first() =~= vy.skip(i + 1));
        i += 1;
    }
    if i < y.len() {
        Order::Less
    } else if i < x.len() {
        Order::Greater
    } else {
        Order::Equal
    }
}

spec fn values(digits: Seq<Vec<char>>) -> Seq<nat> {
    digits.map_values(|d: Vec<char>| crate::text::decimal_value(d@))
}

spec fn all_decimal(digits: Seq<Vec<char>>) -> bool {
    forall|i: int| 0 <= i < digits.len() ==> crate::text::is_decimal((#[trigger] digits[i])@)
}

/// The digits of the numbers between the dots of a text.
fn number_fields(text: &str) -> (digits: Vec<Vec<char>>)
    ensures
        all_decimal(digits@),
        values(digits@) == decimal_fields(crate::text::fields(text@, '.')),
{
    let parts = split_on(text, '.');
    let ghost all = crate::text::views(parts@);
    let mut digits: Vec<Vec<char>> = Vec::new();
    let mut i: usize = 0;
    assert(values(digits@) =~= decimal_fields(all.take(0)));
    while i < parts.len()
        invariant
            i <= parts@.len(),
            all == crate::text::views(parts@),
            all_decimal(digits@),
            values(digits@) == decimal_fields(all.take(i as int)),
        decreases parts@.len() - i,
    {
        assert(all.take(i + 1).drop_last() =~= all.take(i as int));
        assert(all.take(i + 1).last() == parts@[i as int]@);
        let field = chars_of(parts[i]);
        if is_decimal_text(&field) {
            let ghost before = digits@;
            digits.push(field);
            assert(values(digits@) =~= values(before).push(
                crate::text::decimal_value(parts@[i as int]@),
            ));
        }
        i += 1;
    }
    assert(all.take(all.len() as int) =~= all);
    digits
}

fn compare_numbers(a: &Vec<Vec<char>>, b: &Vec<Vec<char>>) -> (order: Order)
    requires
        all_decimal(a@),
        all_decimal(b@),
    ensures
        order == numbers_order(values(a@), values(b@)),
{
    let ghost va = values(a@);
    let ghost vb = values(b@);
    let mut i: usize = 0;
    assert(va.skip(0) =~= va && vb.skip(0) =~= vb);
    while i < a.len() && i < b.len()
        invariant
            i <= a@.len(),
            i <= b@.len(),
            all_decimal(a@),
            all_decimal(b@),
            va == values(a@),
            vb == values(b@),
            numbers_order(va.skip(i as int), vb.skip(i as int)) == numbers_order(va, vb),
        decreases a@.len() - i,
    {
        assert(va.skip(i as int)[0] == crate::text::decimal_value(a@[i as int]@));
        assert(vb.skip(i as int)[0] == crate::text::decimal_value(b@[i as int]@));
        match compare_decimals(&a[i], &b[i]) {
            Order::Equal => {},
            decided => return decided,
        }
        assert(va.skip(i as int).drop_first() =~= va.skip(i + 1));
        assert(vb.skip(i as int).drop_first() =~= vb.skip(i + 1));
        i += 1;
    }
    if i < b.len() {
        Order::Less
    } else if i < a.len() {
        Order::Greater
    } else {
        Order::Equal
    }
}

/// Compares the precedence of semantic versions.
pub fn compare_versions(a: &str, b: &str) -> (order: Order)
    ensures
        order == precedence(version_of(a@), version_of(b@)),
{
    let (version_a, _) = split_at_first(a, '+');
    let (version_b, _) = split_at_first(b, '+');
    let (core_a, pre_a) = split_at_first(version_a, '-');
    let (core_b, pre_b) = split_at_first(version_b, '-');
    let numbers_a = number_fields(core_a);
    let numbers_b = number_fields(core_b);
    match compare_numbers(&numbers_a, &numbers_b) {
        Order::Equal => match (pre_a, pre_b) {
            (None, None) => Order::Equal,
            (None, Some(_)) => Order::Greater,
            (Some(_), None) => Order::Less,
            (Some(x), Some(y)) => compare_pre(x, y),
        },
        decided => decided,
    }
}

/// Compares semantic versions: whether `a` is greater than `b`.
pub fn version_greater(a: &str, b: &str) -> (greater: bool)
    ensures
        greater == is_later(version_of(a@), version_of(b@)),
{
    match compare_versions(a, b) {
        Order::Greater => true,
        _ => false,
    }
}

// ---------------------------------------------------------------------------
// Laws
// ---------------------------------------------------------------------------

/// Swapping the sides mirrors the order, what follows a follower follows, and things that are
/// equal stand to all others alike.
pub open spec fn is_weak_order<A>(order: spec_fn(A, A) -> Order) -> bool {
    &&& forall|x: A, y: A| #[trigger] order(y, x) == order(x, y).mirrored()
    &&& forall|x: A, y: A, z: A|
        #![trigger order(x, y), order(y, z)]
        order(x, y) == Order::Greater && order(y, z) == Order::Greater ==> order(x, z)
            == Order::Greater
    &&& forall|x: A, y: A, z: A|
        #![trigger order(x, y), order(y, z)]
        order(x, y) == Order::Equal ==> order(x, z) == order(y, z)
}

proof fn lexicographic_mirrors<A>(a: Seq<A>, b: Seq<A>, order: spec_fn(A, A) -> Order)
    requires
        is_weak_order(order),
    ensures
        lexicographic(b, a, order) == lexicographic(a, b, order).mirrored(),
    decreases a.len(),
{
    if a.len() > 0 && b.len() > 0 {
        assert(order(b[0], a[0]) == order(a[0], b[0]).mirrored());
        lexicographic_mirrors(a.drop_first(), b.drop_first(), order);
    }
}

proof fn lexicographic_keeps_equals<A>(
    a: Seq<A>,
    b: Seq<A>,
    c: Seq<A>,
    order: spec_fn(A, A) -> Order,
)
    requires
        is_weak_order(order),
        lexicographic(a, b, order) == Order::Equal,
    ensures
        lexicographic(a, c, order) == lexicographic(b, c, order),
    decreases a.len(),
{
    if a.len() > 0 && c.len() > 0 {
        assert(order(a[0], b[0]) == Order::Equal);
        assert(order(a[0], c[0]) == order(b[0], c[0]));
        lexicographic_keeps_equals(a.drop_first(), b.drop_first(), c.drop_first(), order);
    }
}

proof fn lexicographic_is_transitive<A>(
    a: Seq<A>,
    b: Seq<A>,
    c: Seq<A>,
    order: spec_fn(A, A) -> Order,
)
    requires
        is_weak_order(order),
        lexicographic(a, b, order) == Order::Greater,
        lexicographic(b, c, order) == Order::Greater,
    ensures
        lexicographic(a, c, order) == Order::Greater,
    decreases a.len(),
{
    if b.len() > 0 && c.len() > 0 {
        let ab = order(a[0], b[0]);
        let bc = order(b[0], c[0]);
        assert(order(b[0], a[0]) == ab.mirrored());
        assert(order(c[0], b[0]) == bc.mirrored());
        if ab == Order::Equal {
            assert(order(a[0], c[0]) == bc);
            if bc == Order::Equal {
                lexicographic_is_transitive(a.drop_first(), b.drop_first(), c.drop_first(), order);
            }
        } else if bc == Order::Equal {
            assert(order(c[0], a[0]) == order(b[0], a[0]));
            assert(order(a[0], c[0]) == order(c[0], a[0]).mirrored());
        }
    }
}

proof fn lexicographic_is_weak_order<A>(order: spec_fn(A, A) -> Order)
    requires
        is_weak_order(order),
    ensures
        is_weak_order(|a: Seq<A>, b: Seq<A>| lexicographic(a, b, order)),
{
    let lex = |a: Seq<A>, b: Seq<A>| lexicographic(a, b, order);
    assert forall|x: Seq<A>, y: Seq<A>| #[trigger] lex(y, x) == lex(x, y).mirrored() by {
        lexicographic_mirrors(x, y, order);
    }
    assert forall|x: Seq<A>, y: Seq<A>, z: Seq<A>|
        #![trigger lex(x, y), lex(y, z)]
        lex(x, y) == Order::Greater && lex(y, z) == Order::Greater implies lex(x, z)
        == Order::Greater by {
        lexicographic_is_transitive(x, y, z, order);
    }
    assert forall|x: Seq<A>, y: Seq<A>, z: Seq<A>|
        #![trigger lex(x, y), lex(y, z)]
        lex(x, y) == Order::Equal implies lex(x, z) == lex(y, z) by {
        lexicographic_keeps_equals(x, y, z, order);
    }
}

proof fn identifiers_are_ordered()
    ensures
        is_weak_order(by_identifier()),
{
    let chars = by_code();
    assert(is_weak_order(chars));
    lexicographic_is_weak_order(chars);
    let text = |x: Seq<char>, y: Seq<char>| lexicographic(x, y, chars);
    let order = by_identifier();
    assert forall|x: Seq<char>, y: Seq<char>| #[trigger] order(y, x) == order(
        x,
        y,
    ).mirrored() by {
        assert(text(y, x) == text(x, y).mirrored());
    }
    assert forall|x: Seq<char>, y: Seq<char>, z: Seq<char>|
        #![trigger order(x, y), order(y, z)]
        order(x, y) == Order::Greater && order(y, z) == Order::Greater implies order(x, z)
        == Order::Greater by {
        assert(text(x, y) == text_order(x, y) && text(y, z) == text_order(y, z));
    }
    assert forall|x: Seq<char>, y: Seq<char>, z: Seq<char>|
        #![trigger order(x, y), order(y, z)]
        order(x, y) == Order::Equal implies order(x, z) == order(y, z) by {
        assert(text(x, y) == text_order(x, y) && text(y, z) == text_order(y, z));
    }
}

/// Precedence orders all versions: of two versions either one is later, or the other is, or
/// they have the same precedence; what is later than a later version is later; and versions of
/// the same precedence stand to all others alike.
pub proof fn precedence_is_an_order()
    ensures
        is_weak_order(|a: Version, b: Version| precedence(a, b)),
{
    let nats = by_value();
    assert(is_weak_order(nats));
    lexicographic_is_weak_order(nats);
    let numbers = |a: Seq<nat>, b: Seq<nat>| lexicographic(a, b, nats);
    identifiers_are_ordered();
    let ids = by_identifier();
    lexicographic_is_weak_order(ids);
    let pres = |a: Seq<Seq<char>>, b: Seq<Seq<char>>| lexicographic(a, b, ids);
    let order = |a: Version, b: Version| precedence(a, b);
    assert forall|x: Version, y: Version| #[trigger] order(y, x) == order(x, y).mirrored() by {
        assert(numbers(y.numbers, x.numbers) == numbers(x.numbers, y.numbers).mirrored());
        if x.pre is Some && y.pre is Some {
            assert(pres(y.pre->0, x.pre->0) == pres(x.pre->0, y.pre->0).mirrored());
        }
    }
    assert forall|x: Version, y: Version, z: Version|
        #![trigger order(x, y), order(y, z)]
        order(x, y) == Order::Greater && order(y, z) == Order::Greater implies order(x, z)
        == Order::Greater by {
        let xy = numbers(x.numbers, y.numbers);
        let yz = numbers(y.numbers, z.numbers);
        assert(xy == numbers_order(x.numbers, y.numbers));
        assert(yz == numbers_order(y.numbers, z.numbers));
        assert(numbers(z.numbers, x.numbers) == numbers(x.numbers, z.numbers).mirrored());
        assert(numbers(z.numbers, y.numbers) == yz.mirrored());
        assert(numbers(y.numbers, x.numbers) == xy.mirrored());
        if x.pre is Some && y.pre is Some && z.pre is Some {
            assert(pres(x.pre->0, y.pre->0) == identifiers_order(x.pre->0, y.pre->0));
            assert(pres(y.pre->0, z.pre->0) == identifiers_order(y.pre->0, z.pre->0));
        }
    }
    assert forall|x: Version, y: Version, z: Version|
        #![trigger order(x, y), order(y, z)]
        order(x, y) == Order::Equal implies order(x, z) == order(y, z) by {
        assert(numbers(x.numbers, y.numbers) == numbers_order(x.numbers, y.numbers));
        assert(numbers(y.numbers, z.numbers) == numbers_order(y.numbers, z.numbers));
        if x.pre is Some && y.pre is Some && z.pre is Some {
            assert(pres(x.pre->0, y.pre->0) == identifiers_order(x.pre->0, y.pre->0));
            assert(pres(y.pre->0, z.pre->0) == identifiers_order(y.pre->0, z.pre->0));
        }
    }
}

/// No version is later than itself, and of two versions at most one is later.
pub proof fn later_is_strict(a: Version, b: Version)
    ensures
        !is_later(a, a),
        is_later(a, b) ==> !is_later(b, a),
{
    precedence_is_an_order();
    let order = |x: Version, y: Version| precedence(x, y);
    assert(order(a, a) == order(a, a).mirrored());
    assert(order(b, a) == order(a, b).mirrored());
}

/// What is later than a later version is later.
pub proof fn later_is_transitive(a: Version, b: Version, c: Version)
    requires
        is_later(a, b),
        is_later(b, c),
    ensures
        is_later(a, c),
{
    precedence_is_an_order();
    let order = |x: Version, y: Version| precedence(x, y);
    assert(order(a, b) == Order::Greater && order(b, c) == Order::Greater);
    assert(order(a, c) == Order::Greater);
}

/// A pre-release comes before its release.
pub proof fn release_follows_its_pre_releases(numbers: Seq<nat>, pre: Seq<Seq<char>>)
    ensures
        is_later(Version { numbers, pre: None }, Version { numbers, pre: Some(pre) }),
{
    same_numbers_are_equal(numbers);
}

/// A greater number decides, whatever pre-releases there are.
pub proof fn first_greater_number_decides(a: Version, b: Version, k: int)
    requires
        0 <= k < a.numbers.len(),
        k < b.numbers.len(),
        a.numbers.take(k) == b.numbers.take(k),
        a.numbers[k] > b.numbers[k],
    ensures
        is_later(a, b),
{
    first_greater_number(a.numbers, b.numbers, k);
}

proof fn first_greater_number(a: Seq<nat>, b: Seq<nat>, k: int)
    requires
        0 <= k < a.len(),
        k < b.len(),
        a.take(k) == b.take(k),
        a[k] > b[k],
    ensures
        numbers_order(a, b) == Order::Greater,
    decreases k,
{
    if k > 0 {
        assert(a[0] == a.take(k)[0] && b[0] == b.take(k)[0]);
        assert(by_value()(a[0], b[0]) == Order::Equal);
        assert(a.drop_first().take(k - 1) =~= a.take(k).drop_first());
        assert(b.drop_first().take(k - 1) =~= b.take(k).drop_first());
        first_greater_number(a.drop_first(), b.drop_first(), k - 1);
    } else {
        assert(by_value()(a[0], b[0]) == Order::Greater);
    }
}

proof fn same_numbers_are_equal(numbers: Seq<nat>)
    ensures
        numbers_order(numbers, numbers) == Order::Equal,
    decreases numbers.len(),
{
    if numbers.len() > 0 {
        same_numbers_are_equal(numbers.drop_first());
    }
}

/// What is said of a build does not count.
pub proof fn build_metadata_does_not_count(version: Seq<char>, build: Seq<char>)
    requires
        !version.contains('+'),
    ensures
        version_of(version.push('+') + build) == version_of(version),
{
    let whole = version.push('+') + build;
    crate::text::span_without(version, '+', build);
    assert(whole.take(version.len() as int) =~= version);
    assert(version.take(version.len() as int) =~= version);
}

/// Some numbers with dots between them, as in `1.2.3`.
pub open spec fn dotted(numbers: Seq<nat>) -> Seq<char> {
    crate::text::separated(numbers.map_values(|n: nat| crate::text::decimal_text(n)), '.')
}

proof fn decimals_hold_only_digits(n: nat, c: char)
    requires
        c < '0' || c > '9',
    ensures
        !crate::text::decimal_text(n).contains(c),
{
    crate::text::numbers_are_written_without_leading_zeros(n);
    let s = crate::text::decimal_text(n);
    assert forall|i: int| 0 <= i < s.len() implies s[i] != c by {
        assert(crate::text::is_digit(s[i]));
    }
}

proof fn separated_holds_no_other(parts: Seq<Seq<char>>, separator: char, c: char)
    requires
        separator != c,
        forall|i: int| 0 <= i < parts.len() ==> !(#[trigger] parts[i]).contains(c),
    ensures
        !crate::text::separated(parts, separator).contains(c),
    decreases parts.len(),
{
    let whole = crate::text::separated(parts, separator);
    if parts.len() > 0 {
        assert(!parts[0].contains(c));
    }
    if parts.len() > 1 {
        let rest = parts.drop_first();
        assert forall|i: int| 0 <= i < rest.len() implies !(#[trigger] rest[i]).contains(c) by {
            assert(rest[i] == parts[i + 1]);
        }
        separated_holds_no_other(rest, separator, c);
        let tail = crate::text::separated(rest, separator);
        assert forall|i: int| 0 <= i < whole.len() implies whole[i] != c by {
            if i < parts[0].len() {
                assert(parts[0].contains(parts[0][i]));
            } else if i > parts[0].len() {
                assert(tail.contains(tail[i - parts[0].len() - 1]));
            }
        }
    }
}

proof fn fields_of_separated(parts: Seq<Seq<char>>, c: char)
    requires
        parts.len() > 0,
        forall|i: int| 0 <= i < parts.len() ==> !(#[trigger] parts[i]).contains(c),
    ensures
        crate::text::fields(crate::text::separated(parts, c), c) == parts,
    decreases parts.len(),
{
    assert(!parts[0].contains(c));
    if parts.len() == 1 {
        crate::text::fields_end_at_separators(parts[0], c, Seq::empty());
        assert(parts =~= seq![parts[0]]);
    } else {
        let rest = parts.drop_first();
        assert forall|i: int| 0 <= i < rest.len() implies !(#[trigger] rest[i]).contains(c) by {
            assert(rest[i] == parts[i + 1]);
        }
        fields_of_separated(rest, c);
        crate::text::fields_end_at_separators(parts[0], c, crate::text::separated(rest, c));
        assert(parts =~= seq![parts[0]] + rest);
    }
}

proof fn decimal_fields_of_numbers(numbers: Seq<nat>)
    ensures
        decimal_fields(numbers.map_values(|n: nat| crate::text::decimal_text(n))) == numbers,
    decreases numbers.len(),
{
    let texts = numbers.map_values(|n: nat| crate::text::decimal_text(n));
    if numbers.len() == 0 {
        assert(decimal_fields(texts) =~= numbers);
    } else {
        let rest = numbers.drop_last();
        decimal_fields_of_numbers(rest);
        assert(texts.drop_last() =~= rest.map_values(|n: nat| crate::text::decimal_text(n)));
        crate::text::numbers_are_written_without_leading_zeros(numbers.last());
        assert(decimal_fields(texts) =~= numbers);
    }
}

/// A version is read as it is written: numbers with dots between them, and behind a hyphen the
/// identifiers of a pre-release, with dots between them too.
pub proof fn versions_are_read_as_written(numbers: Seq<nat>, pre: Seq<char>)
    requires
        numbers.len() > 0,
        !pre.contains('+'),
    ensures
        version_of(dotted(numbers)) == (Version { numbers, pre: None }),
        version_of(dotted(numbers).push('-') + pre) == (Version {
            numbers,
            pre: Some(crate::text::fields(pre, '.')),
        }),
{
    let texts = numbers.map_values(|n: nat| crate::text::decimal_text(n));
    let core = dotted(numbers);
    assert forall|i: int| 0 <= i < texts.len() implies !(#[trigger] texts[i]).contains('.')
        && !texts[i].contains('-') && !texts[i].contains('+') by {
        decimals_hold_only_digits(numbers[i], '.');
        decimals_hold_only_digits(numbers[i], '-');
        decimals_hold_only_digits(numbers[i], '+');
    }
    fields_of_separated(texts, '.');
    separated_holds_no_other(texts, '.', '-');
    separated_holds_no_other(texts, '.', '+');
    decimal_fields_of_numbers(numbers);
    versions_are_read_part_by_part(core, pre);
}

/// Whatever stands before the hyphen gives the numbers, by the fields between its dots, and
/// whatever stands behind it the identifiers of a pre-release.
pub proof fn versions_are_read_part_by_part(core: Seq<char>, pre: Seq<char>)
    requires
        !core.contains('+'),
        !core.contains('-'),
        !pre.contains('+'),
    ensures
        version_of(core) == (Version {
            numbers: decimal_fields(crate::text::fields(core, '.')),
            pre: None,
        }),
        version_of(core.push('-') + pre) == (Version {
            numbers: decimal_fields(crate::text::fields(core, '.')),
            pre: Some(crate::text::fields(pre, '.')),
        }),
{
    crate::text::span_without(core, '+', Seq::empty());
    crate::text::span_without(core, '-', pre);
    assert(core.take(core.len() as int) =~= core);
    let whole = core.push('-') + pre;
    assert forall|i: int| 0 <= i < whole.len() implies whole[i] != '+' by {
        if i < core.len() {
            assert(core.contains(core[i]));
        } else if i > core.len() {
            assert(pre.contains(pre[i - core.len() - 1]));
        }
    }
    crate::text::span_without(whole, '+', Seq::empty());
    assert(whole.take(whole.len() as int) =~= whole);
    assert(whole.take(core.len() as int) =~= core);
    assert(whole.skip(core.len() as int + 1) =~= pre);
}

/// Fields that are no numbers are passed over, and the others keep their order.
pub proof fn other_fields_are_passed_over(a: Seq<Seq<char>>, b: Seq<Seq<char>>, t: Seq<char>)
    ensures
        decimal_fields(a + b) == decimal_fields(a) + decimal_fields(b),
        crate::text::is_decimal(t) ==> decimal_fields(seq![t]) == seq![
            crate::text::decimal_value(t),
        ],
        !crate::text::is_decimal(t) ==> decimal_fields(seq![t]) == Seq::<nat>::empty(),
    decreases b.len(),
{
    assert(seq![t].drop_last() =~= Seq::empty());
    assert(decimal_fields(Seq::<Seq<char>>::empty()) =~= Seq::<nat>::empty());
    if crate::text::is_decimal(t) {
        assert(decimal_fields(seq![t]) =~= seq![crate::text::decimal_value(t)]);
    }
    if b.len() == 0 {
        assert(a + b =~= a);
        assert(decimal_fields(a) + decimal_fields(b) =~= decimal_fields(a));
    } else {
        let rest = b.drop_last();
        other_fields_are_passed_over(a, rest, t);
        assert((a + b).drop_last() =~= a + rest);
        assert((a + b).last() == b.last());
        assert(decimal_fields(a + b) =~= decimal_fields(a) + decimal_fields(b));
    }
}

proof fn lexicographic_decides<A>(a: Seq<A>, b: Seq<A>, order: spec_fn(A, A) -> Order, k: int)
    requires
        0 <= k <= a.len(),
        k <= b.len(),
        forall|i: int| 0 <= i < k ==> #[trigger] order(a[i], b[i]) == Order::Equal,
        k < a.len() && k < b.len() ==> order(a[k], b[k]) != Order::Equal,
    ensures
        lexicographic(a, b, order) == if k == a.len() && k == b.len() {
            Order::Equal
        } else if k == a.len() {
            Order::Less
        } else if k == b.len() {
            Order::Greater
        } else {
            order(a[k], b[k])
        },
    decreases k,
{
    if k > 0 {
        let x = a.drop_first();
        let y = b.drop_first();
        assert(order(a[0], b[0]) == Order::Equal);
        assert forall|i: int| 0 <= i < k - 1 implies #[trigger] order(x[i], y[i])
            == Order::Equal by {
            assert(order(a[i + 1], b[i + 1]) == Order::Equal);
        }
        lexicographic_decides(x, y, order, k - 1);
    }
}

/// Where the numbers of one version begin with those of another and there are more of them, it
/// is the later.
pub proof fn more_numbers_come_later(a: Version, b: Version)
    requires
        a.numbers.len() > b.numbers.len(),
        a.numbers.take(b.numbers.len() as int) == b.numbers,
    ensures
        is_later(a, b),
{
    let k = b.numbers.len() as int;
    let order = by_value();
    assert forall|i: int| 0 <= i < k implies #[trigger] order(a.numbers[i], b.numbers[i])
        == Order::Equal by {
        assert(a.numbers.take(k)[i] == b.numbers[i]);
    }
    lexicographic_decides(a.numbers, b.numbers, order, k);
}

/// Numbers are compared by their value, and characters by their code.
pub proof fn comparing_goes_by_value(a: nat, b: nat, x: char, y: char)
    ensures
        nat_order(a, b) == Order::Greater <==> a > b,
        nat_order(a, b) == Order::Less <==> a < b,
        char_order(x, y) == Order::Greater <==> x as u32 > y as u32,
        char_order(x, y) == Order::Less <==> (x as u32) < y as u32,
{
}

/// Of two pre-releases of the same release, the first identifier that differs decides, or else
/// the one that has more identifiers is the later.
pub proof fn first_greater_identifier_decides(
    numbers: Seq<nat>,
    a: Seq<Seq<char>>,
    b: Seq<Seq<char>>,
    k: int,
)
    requires
        0 <= k < a.len(),
        k <= b.len(),
        forall|i: int| 0 <= i < k ==> identifier_order(#[trigger] a[i], b[i]) == Order::Equal,
        k < b.len() ==> identifier_order(a[k], b[k]) == Order::Greater,
    ensures
        is_later(Version { numbers, pre: Some(a) }, Version { numbers, pre: Some(b) }),
{
    same_numbers_are_equal(numbers);
    let order = by_identifier();
    assert forall|i: int| 0 <= i < k implies #[trigger] order(a[i], b[i]) == Order::Equal by {
        assert(order(a[i], b[i]) == identifier_order(a[i], b[i]));
    }
    if k < b.len() {
        assert(order(a[k], b[k]) == identifier_order(a[k], b[k]));
    }
    lexicographic_decides(a, b, order, k);
}

/// Pre-releases of the same release whose identifiers are all equal have the same precedence.
pub proof fn equal_identifiers_have_equal_precedence(
    numbers: Seq<nat>,
    a: Seq<Seq<char>>,
    b: Seq<Seq<char>>,
)
    requires
        a.len() == b.len(),
        forall|i: int| 0 <= i < a.len() ==> identifier_order(#[trigger] a[i], b[i]) == Order::Equal,
    ensures
        precedence(Version { numbers, pre: Some(a) }, Version { numbers, pre: Some(b) })
            == Order::Equal,
{
    same_numbers_are_equal(numbers);
    let order = by_identifier();
    assert forall|i: int| 0 <= i < a.len() implies #[trigger] order(a[i], b[i])
        == Order::Equal by {
        assert(order(a[i], b[i]) == identifier_order(a[i], b[i]));
    }
    lexicographic_decides(a, b, order, a.len() as int);
}

/// Identifiers that are numbers are compared by their value and come before all others.
pub proof fn numeric_identifiers_come_first(a: Seq<char>, b: Seq<char>)
    requires
        crate::text::is_decimal(b),
    ensures
        crate::text::is_decimal(a) ==> (identifier_order(a, b) == Order::Greater
            <==> crate::text::decimal_value(a) > crate::text::decimal_value(b)),
        !crate::text::is_decimal(a) ==> identifier_order(a, b) == Order::Greater,
        !crate::text::is_decimal(a) ==> identifier_order(b, a) == Order::Less,
{
}

/// Of identifiers that are no numbers, the first character that differs decides, or else the
/// longer is the greater.
pub proof fn first_greater_character_decides(a: Seq<char>, b: Seq<char>, k: int)
    requires
        !crate::text::is_decimal(a),
        !crate::text::is_decimal(b),
        0 <= k < a.len(),
        k <= b.len(),
        a.take(k) == b.take(k),
        k < b.len() ==> a[k] > b[k],
    ensures
        identifier_order(a, b) == Order::Greater,
{
    let order = by_code();
    assert forall|i: int| 0 <= i < k implies #[trigger] order(a[i], b[i]) == Order::Equal by {
        assert(a.take(k)[i] == a[i]);
        assert(b.take(k)[i] == b[i]);
        assert(order(a[i], b[i]) == char_order(a[i], b[i]));
    }
    lexicographic_decides(a, b, order, k);
}

} // verus!
