//! Choosing one of several targets.
use vstd::prelude::*;
use vstd::utf8::encode_utf8;
use crate::gateway::rules::{HttpUpstreamTarget, LoadBalanceMethod};

verus! {

pub const FNV_OFFSET: u64 = 0xcbf2_9ce4_8422_2325;

pub const FNV_PRIME: u64 = 0x100_0000_01b3;

/// The FNV-1a hash of some bytes.
pub open spec fn fnv1a(bytes: Seq<u8>) -> u64
    decreases bytes.len(),
{
    if bytes.len() == 0 {
        FNV_OFFSET
    } else {
        (fnv1a(bytes.drop_last()) ^ (bytes.last() as u64)).wrapping_mul(FNV_PRIME)
    }
}

/// The hash of some bytes, cut to the machine's word.
pub open spec fn word_hash(bytes: Seq<u8>) -> usize {
    (fnv1a(bytes) as int % (usize::MAX + 1)) as usize
}

/// The hash of two texts put together, cut to the machine's word.
pub fn fnv1a_hash(host: &str, path: &str) -> (r: usize)
    ensures
        r == word_hash(encode_utf8(host@) + encode_utf8(path@)),
{
    let mut hash: u64 = FNV_OFFSET;
    let first = host.as_bytes();
    let n: usize = first.len();
    assert(first@.take(0) =~= Seq::empty());
    for i in 0..n
        invariant
            n == first@.len(),
            hash == fnv1a(first@.take(i as int)),
    {
        assert(first@.take(i + 1).drop_last() =~= first@.take(i as int));
        hash = (hash ^ (first[i] as u64)).wrapping_mul(FNV_PRIME);
    }
    let second = path.as_bytes();
    let m: usize = second.len();
    let ghost whole = first@ + second@;
    assert(first@.take(n as int) =~= whole.take(n as int));
    for i in 0..m
        invariant
            m == second@.len(),
            n == first@.len(),
            whole == first@ + second@,
            hash == fnv1a(whole.take(n + i)),
    {
        assert(whole.take(n + i + 1).drop_last() =~= whole.take(n + i));
        assert(whole.take(n + i + 1).last() == second@[i as int]);
        hash = (hash ^ (second[i] as u64)).wrapping_mul(FNV_PRIME);
    }
    assert(whole.take(n + m) =~= whole);
    if usize::MAX as u64 == u64::MAX {
        hash as usize
    } else {
        (hash % 0x1_0000_0000) as usize
    }
}

/// The weights of the first targets put together.
pub open spec fn weight_sum(targets: Seq<HttpUpstreamTarget>) -> nat
    decreases targets.len(),
{
    if targets.len() == 0 {
        0
    } else {
        weight_sum(targets.drop_last()) + targets.last().weight as nat
    }
}

/// The target that a point between zero and all weights put together falls to,
/// each target taking as much room as it weighs.
pub open spec fn target_at(targets: Seq<HttpUpstreamTarget>, point: nat, i: int) -> int
    decreases targets.len() - i,
{
    if i < 0 || i >= targets.len() - 1 {
        targets.len() - 1
    } else if point < weight_sum(targets.take(i + 1)) {
        i
    } else {
        target_at(targets, point, i + 1)
    }
}

/// The target that a hash falls to by weight; without any weight the first.
pub open spec fn weighted(targets: Seq<HttpUpstreamTarget>, seed: usize) -> int {
    let total = weight_sum(targets);
    if total == 0 {
        0
    } else {
        target_at(targets, (seed as nat % 0x1_0000_0000) % total, 0)
    }
}

proof fn lemma_weight_sum_prefix(targets: Seq<HttpUpstreamTarget>, n: int)
    requires
        0 <= n <= targets.len(),
    ensures
        weight_sum(targets.take(n)) <= weight_sum(targets),
    decreases targets.len() - n,
{
    if n < targets.len() {
        assert(targets.take(n + 1).drop_last() =~= targets.take(n));
        lemma_weight_sum_prefix(targets, n + 1);
    } else {
        assert(targets.take(n) =~= targets);
    }
}

pub fn weighted_select(targets: &Vec<HttpUpstreamTarget>, seed: usize) -> (r: usize)
    requires
        targets@.len() > 0,
        weight_sum(targets@) <= u32::MAX,
    ensures
        r < targets@.len(),
        r == weighted(targets@, seed),
{
    let n: usize = targets.len();
    let mut total: u32 = 0;
    assert(targets@.take(0) =~= Seq::empty());
    for i in 0..n
        invariant
            n == targets@.len(),
            weight_sum(targets@) <= u32::MAX,
            total == weight_sum(targets@.take(i as int)),
    {
        proof {
            assert(targets@.take(i + 1).drop_last() =~= targets@.take(i as int));
            lemma_weight_sum_prefix(targets@, i + 1);
        }
        total = total + targets[i].weight;
    }
    assert(targets@.take(n as int) =~= targets@);
    if total == 0 {
        return 0;
    }
    let pick: u32 = ((seed as u64 % 0x1_0000_0000) as u32) % total;
    let mut acc: u32 = 0;
    for i in 0..n
        invariant
            n == targets@.len(),
            n > 0,
            weight_sum(targets@) <= u32::MAX,
            acc == weight_sum(targets@.take(i as int)),
            target_at(targets@, pick as nat, 0) == target_at(targets@, pick as nat, i as int),
            weighted(targets@, seed) == target_at(targets@, pick as nat, 0),
    {
        proof {
            assert(targets@.take(i + 1).drop_last() =~= targets@.take(i as int));
            lemma_weight_sum_prefix(targets@, i + 1);
        }
        acc = acc + targets[i].weight;
        if pick < acc {
            return i;
        }
    }
    n - 1
}

/// Whether a target can be chosen without the weights leaving 32 bits.
pub open spec fn weights_fit(targets: Seq<HttpUpstreamTarget>, method: LoadBalanceMethod) -> bool {
    method is Consistent && targets.len() > 1 ==> weight_sum(targets) <= u32::MAX
}

/// Whether a target can be chosen without the weights leaving 32 bits.
pub fn can_choose(targets: &Vec<HttpUpstreamTarget>, method: LoadBalanceMethod) -> (r: bool)
    ensures
        r == weights_fit(targets@, method),
{
    let n: usize = targets.len();
    if method != LoadBalanceMethod::Consistent || n <= 1 {
        return true;
    }
    let mut total: u64 = 0;
    assert(targets@.take(0) =~= Seq::empty());
    for i in 0..n
        invariant
            n == targets@.len(),
            method is Consistent,
            n > 1,
            total == weight_sum(targets@.take(i as int)),
            total <= u32::MAX,
    {
        proof {
            assert(targets@.take(i + 1).drop_last() =~= targets@.take(i as int));
            lemma_weight_sum_prefix(targets@, i + 1);
        }
        total = total + targets[i].weight as u64;
        if total > u32::MAX as u64 {
            return false;
        }
    }
    assert(targets@.take(n as int) =~= targets@);
    true
}

/// Which of several targets is chosen: the next one in turn, one by the hash
/// of the whole request, or one by the hash of the key and by weight.
pub open spec fn chosen(
    targets: Seq<HttpUpstreamTarget>,
    method: LoadBalanceMethod,
    counter: usize,
    request: Seq<u8>,
    key: Seq<u8>,
) -> int {
    if targets.len() <= 1 {
        0
    } else {
        match method {
            LoadBalanceMethod::RoundRobin => counter as int % targets.len() as int,
            LoadBalanceMethod::Random => word_hash(request) as int % targets.len() as int,
            LoadBalanceMethod::Consistent => weighted(targets, word_hash(key)),
        }
    }
}

/// The turn after a choice: it moves on only where the choice was by turns.
pub open spec fn next_turn(
    targets: Seq<HttpUpstreamTarget>,
    method: LoadBalanceMethod,
    counter: usize,
) -> usize {
    if targets.len() > 1 && method is RoundRobin {
        counter.wrapping_add(1)
    } else {
        counter
    }
}

/// Chooses a target for a request.
pub fn select_target(
    targets: &Vec<HttpUpstreamTarget>,
    method: LoadBalanceMethod,
    counter: &mut usize,
    host: &str,
    path: &str,
) -> (r: usize)
    requires
        targets@.len() > 0,
        weights_fit(targets@, method),
    ensures
        r < targets@.len(),
        r == chosen(
            targets@,
            method,
            *old(counter),
            encode_utf8(host@) + encode_utf8(path@),
            encode_utf8(host@),
        ),
        *final(counter) == next_turn(targets@, method, *old(counter)),
{
    let n: usize = targets.len();
    if n == 1 {
        return 0;
    }
    match method {
        LoadBalanceMethod::RoundRobin => {
            let turn: usize = *counter;
            *counter = turn.wrapping_add(1);
            turn % n
        },
        LoadBalanceMethod::Random => fnv1a_hash(host, path) % n,
        LoadBalanceMethod::Consistent => {
            proof {
                reveal_strlit("");
                vstd::utf8::encode_utf8_decode_utf8(""@);
                assert(""@ =~= Seq::<char>::empty());
                assert(encode_utf8(""@) =~= Seq::<u8>::empty());
                assert(encode_utf8(host@) + encode_utf8(""@) =~= encode_utf8(host@));
            }
            weighted_select(targets, fnv1a_hash(host, ""))
        },
    }
}

proof fn lemma_target_at_in_bounds(targets: Seq<HttpUpstreamTarget>, point: nat, i: int)
    requires
        targets.len() > 0,
    ensures
        0 <= target_at(targets, point, i) < targets.len(),
    decreases targets.len() - i,
{
    if 0 <= i < targets.len() - 1 {
        lemma_target_at_in_bounds(targets, point, i + 1);
    }
}

/// Requests with the same key go to the same target where the choice is by
/// weight, whatever else they ask for and however often.
pub proof fn law_consistent_choice(
    targets: Seq<HttpUpstreamTarget>,
    key: Seq<u8>,
    one: Seq<u8>,
    other: Seq<u8>,
    turn: usize,
    later: usize,
)
    ensures
        chosen(targets, LoadBalanceMethod::Consistent, turn, one, key) == chosen(
            targets,
            LoadBalanceMethod::Consistent,
            later,
            other,
            key,
        ),
{
}

/// The turn after so many choices in a row.
pub open spec fn turn_after(
    targets: Seq<HttpUpstreamTarget>,
    method: LoadBalanceMethod,
    turn: usize,
    choices: nat,
) -> usize
    decreases choices,
{
    if choices == 0 {
        turn
    } else {
        next_turn(targets, method, turn_after(targets, method, turn, (choices - 1) as nat))
    }
}

/// What is chosen after so many choices in a row.
pub open spec fn chosen_after(
    targets: Seq<HttpUpstreamTarget>,
    method: LoadBalanceMethod,
    turn: usize,
    choices: nat,
    request: Seq<u8>,
    key: Seq<u8>,
) -> int {
    chosen(targets, method, turn_after(targets, method, turn, choices), request, key)
}

/// Whether a target is chosen by turns within as many choices as there are
/// targets.
pub open spec fn comes_up(
    targets: Seq<HttpUpstreamTarget>,
    turn: usize,
    request: Seq<u8>,
    key: Seq<u8>,
    t: int,
) -> bool {
    exists|i: nat|
        i < targets.len() && #[trigger] chosen_after(
            targets,
            LoadBalanceMethod::RoundRobin,
            turn,
            i,
            request,
            key,
        ) == t
}

proof fn lemma_turn_moves_on(targets: Seq<HttpUpstreamTarget>, turn: usize, choices: nat)
    requires
        targets.len() > 1,
        turn + choices <= usize::MAX,
    ensures
        turn_after(targets, LoadBalanceMethod::RoundRobin, turn, choices) == turn + choices,
    decreases choices,
{
    if choices > 0 {
        lemma_turn_moves_on(targets, turn, (choices - 1) as nat);
    }
}

proof fn lemma_turns_differ(turn: int, later: int, n: int)
    requires
        0 <= turn < later < turn + n,
    ensures
        turn % n != later % n,
{
    let d = later - turn;
    vstd::arithmetic::div_mod::lemma_fundamental_div_mod(turn, n);
    vstd::arithmetic::div_mod::lemma_fundamental_div_mod(later, n);
    let q = turn / n;
    let p = later / n;
    if turn % n == later % n {
        assert(d == n * (p - q)) by (nonlinear_arith)
            requires
                d == later - turn,
                turn == n * q + turn % n,
                later == n * p + later % n,
                turn % n == later % n,
        ;
        assert(false) by (nonlinear_arith)
            requires
                d == n * (p - q),
                0 < d < n,
        ;
    }
}

proof fn lemma_turn_comes(turn: int, t: int, n: int) -> (i: int)
    requires
        0 <= turn,
        0 <= t < n,
    ensures
        0 <= i < n,
        (turn + i) % n == t,
{
    let i = (t - turn) % n;
    vstd::arithmetic::div_mod::lemma_mod_bound(t - turn, n);
    vstd::arithmetic::div_mod::lemma_add_mod_noop_right(turn, t - turn, n);
    vstd::arithmetic::div_mod::lemma_small_mod(t as nat, n as nat);
    i
}

/// Choosing by turns as often as there are targets takes the targets in their
/// order from the one whose turn it is, each of them exactly once, and moves
/// the turn on by as many, while the turns do not run over.
pub proof fn law_round_robin_takes_turns(
    targets: Seq<HttpUpstreamTarget>,
    turn: usize,
    request: Seq<u8>,
    key: Seq<u8>,
)
    requires
        targets.len() > 1,
        turn + targets.len() <= usize::MAX,
    ensures
        ({
            let method = LoadBalanceMethod::RoundRobin;
            let n = targets.len();
            &&& turn_after(targets, method, turn, n) == turn + n
            &&& forall|i: nat|
                i < n ==> #[trigger] chosen_after(targets, method, turn, i, request, key) == (turn
                    + i) % n as int
            &&& forall|i: nat, j: nat|
                i < j < n ==> #[trigger] chosen_after(targets, method, turn, i, request, key)
                    != #[trigger] chosen_after(targets, method, turn, j, request, key)
            &&& forall|t: int|
                0 <= t < n ==> #[trigger] comes_up(targets, turn, request, key, t)
        }),
{
    let method = LoadBalanceMethod::RoundRobin;
    let n = targets.len();
    lemma_turn_moves_on(targets, turn, n);
    assert forall|i: nat| i < n implies #[trigger] chosen_after(
        targets,
        method,
        turn,
        i,
        request,
        key,
    ) == (turn + i) % n as int by {
        lemma_turn_moves_on(targets, turn, i);
    }
    assert forall|i: nat, j: nat| i < j < n implies #[trigger] chosen_after(
        targets,
        method,
        turn,
        i,
        request,
        key,
    ) != #[trigger] chosen_after(targets, method, turn, j, request, key) by {
        lemma_turns_differ(turn + i, turn + j, n as int);
    }
    assert forall|t: int| 0 <= t < n implies #[trigger] comes_up(
        targets,
        turn,
        request,
        key,
        t,
    ) by {
        let i = lemma_turn_comes(turn as int, t, n as int);
        assert(chosen_after(targets, method, turn, i as nat, request, key) == t);
    }
}

/// A choice that is not by turns, or among fewer than two targets, does not
/// depend on the turn and leaves it alone, however often it is made.
pub proof fn law_other_choices_ignore_turns(
    targets: Seq<HttpUpstreamTarget>,
    method: LoadBalanceMethod,
    turn: usize,
    later: usize,
    choices: nat,
    request: Seq<u8>,
    key: Seq<u8>,
)
    requires
        !(method is RoundRobin) || targets.len() <= 1,
    ensures
        turn_after(targets, method, turn, choices) == turn,
        chosen_after(targets, method, turn, choices, request, key) == chosen(
            targets,
            method,
            later,
            request,
            key,
        ),
        targets.len() == 1 ==> chosen(targets, method, turn, request, key) == 0,
    decreases choices,
{
    if choices > 0 {
        law_other_choices_ignore_turns(
            targets,
            method,
            turn,
            later,
            (choices - 1) as nat,
            request,
            key,
        );
    }
}

/// A target without weight is not chosen by weight where another one has some.
pub proof fn law_weightless_target_is_passed_over(targets: Seq<HttpUpstreamTarget>, seed: usize)
    requires
        weight_sum(targets) > 0,
    ensures
        0 <= weighted(targets, seed) < targets.len(),
        targets[weighted(targets, seed)].weight > 0,
{
    let total = weight_sum(targets);
    let cut = seed as nat % 0x1_0000_0000;
    vstd::arithmetic::div_mod::lemma_mod_bound(cut as int, total as int);
    let point = cut % total;
    lemma_chosen_has_weight(targets, point, 0);
}

proof fn lemma_chosen_has_weight(targets: Seq<HttpUpstreamTarget>, point: nat, i: int)
    requires
        0 <= i < targets.len(),
        weight_sum(targets.take(i)) <= point < weight_sum(targets),
    ensures
        0 <= target_at(targets, point, i) < targets.len(),
        targets[target_at(targets, point, i)].weight > 0,
    decreases targets.len() - i,
{
    assert(targets.take(i + 1).drop_last() =~= targets.take(i));
    if i == targets.len() - 1 {
        assert(targets.take(i + 1) =~= targets);
    } else if point >= weight_sum(targets.take(i + 1)) {
        lemma_chosen_has_weight(targets, point, i + 1);
    }
}

/// The weights of some targets added up.
pub open spec fn total_weight(targets: Seq<HttpUpstreamTarget>) -> int {
    targets.fold_left(0int, |sum: int, t: HttpUpstreamTarget| sum + t.weight)
}

proof fn lemma_total_weight(targets: Seq<HttpUpstreamTarget>)
    ensures
        weight_sum(targets) == total_weight(targets),
    decreases targets.len(),
{
    if targets.len() > 0 {
        lemma_total_weight(targets.drop_last());
    }
}

proof fn lemma_share(targets: Seq<HttpUpstreamTarget>, point: nat, i: int)
    requires
        0 <= i < targets.len(),
        weight_sum(targets.take(i)) <= point < weight_sum(targets),
    ensures
        ({
            let at = target_at(targets, point, i);
            &&& i <= at < targets.len()
            &&& weight_sum(targets.take(at)) <= point < weight_sum(targets.take(at))
                + targets[at].weight
        }),
    decreases targets.len() - i,
{
    assert(targets.take(i + 1).drop_last() =~= targets.take(i));
    if i == targets.len() - 1 {
        assert(targets.take(i + 1) =~= targets);
    } else if point >= weight_sum(targets.take(i + 1)) {
        lemma_share(targets, point, i + 1);
    }
}

proof fn lemma_weighted_share(targets: Seq<HttpUpstreamTarget>, seed: usize)
    requires
        total_weight(targets) > 0,
    ensures
        ({
            let at = weighted(targets, seed);
            let point = (seed as int % 0x1_0000_0000) % total_weight(targets);
            &&& 0 <= at < targets.len()
            &&& total_weight(targets.take(at)) <= point < total_weight(targets.take(at))
                + targets[at].weight
        }),
{
    lemma_total_weight(targets);
    let cut = seed as nat % 0x1_0000_0000;
    vstd::arithmetic::div_mod::lemma_mod_bound(cut as int, weight_sum(targets) as int);
    assert(targets.len() > 0);
    assert(targets.take(0) =~= Seq::empty());
    lemma_share(targets, cut % weight_sum(targets), 0);
    lemma_total_weight(targets.take(weighted(targets, seed)));
}

proof fn lemma_cut_twice(h: int, word: int)
    requires
        0 <= h <= u64::MAX,
        word == 0x1_0000_0000 || word == 0x1_0000_0000_0000_0000,
    ensures
        0 <= h % word < word,
        (h % word) % 0x1_0000_0000 == h % 0x1_0000_0000,
{
    vstd::arithmetic::div_mod::lemma_mod_bound(h, word);
    if word == 0x1_0000_0000 {
        vstd::arithmetic::div_mod::lemma_mod_twice(h, word);
    } else {
        vstd::arithmetic::div_mod::lemma_small_mod(h as nat, word as nat);
    }
}

proof fn lemma_word_hash(bytes: Seq<u8>)
    ensures
        word_hash(bytes) as int % 0x1_0000_0000 == fnv1a(bytes) as int % 0x1_0000_0000,
{
    let h = fnv1a(bytes);
    lemma_cut_twice(h as int, usize::MAX + 1);
}

/// Where the choice is by weight, the target is the one into whose share the
/// hash of the key falls: with the low 32 bits of the hash taken modulo all
/// weights, the weights in front of the target come to at most that, and with
/// its own weight to more. Without any weight it is the first.
pub proof fn law_consistent_choice_by_share(
    targets: Seq<HttpUpstreamTarget>,
    turn: usize,
    request: Seq<u8>,
    key: Seq<u8>,
)
    requires
        targets.len() > 1,
    ensures
        ({
            let at = chosen(targets, LoadBalanceMethod::Consistent, turn, request, key);
            let point = (fnv1a(key) as int % 0x1_0000_0000) % total_weight(targets);
            if total_weight(targets) == 0 {
                at == 0
            } else {
                &&& 0 <= at < targets.len()
                &&& total_weight(targets.take(at)) <= point
                &&& point < total_weight(targets.take(at)) + targets[at].weight
            }
        }),
{
    lemma_total_weight(targets);
    lemma_word_hash(key);
    if total_weight(targets) != 0 {
        lemma_weighted_share(targets, word_hash(key));
    }
}

/// Every target with weight is chosen for as many hashes below the sum of all
/// weights as it weighs: those from the weights in front of it on.
pub proof fn law_every_weight_has_its_share(
    targets: Seq<HttpUpstreamTarget>,
    t: int,
    seed: usize,
)
    requires
        0 <= t < targets.len(),
        total_weight(targets) <= u32::MAX,
        total_weight(targets.take(t)) <= seed < total_weight(targets.take(t)) + targets[t].weight,
    ensures
        weighted(targets, seed) == t,
{
    lemma_total_weight(targets);
    lemma_total_weight(targets.take(t));
    lemma_total_weight(targets.take(t + 1));
    assert(targets.take(t + 1).drop_last() =~= targets.take(t));
    lemma_weight_sum_prefix(targets, t + 1);
    assert(0 <= seed < weight_sum(targets));
    vstd::arithmetic::div_mod::lemma_small_mod(seed as nat, 0x1_0000_0000);
    vstd::arithmetic::div_mod::lemma_small_mod(seed as nat, weight_sum(targets));
    lemma_weighted_share(targets, seed);
    let at = weighted(targets, seed);
    lemma_total_weight(targets.take(at));
    if at < t {
        lemma_total_weight(targets.take(at + 1));
        assert(targets.take(at + 1).drop_last() =~= targets.take(at));
        assert(targets.take(t).take(at + 1) =~= targets.take(at + 1));
        lemma_weight_sum_prefix(targets.take(t), at + 1);
    } else if at > t {
        assert(targets.take(at).take(t + 1) =~= targets.take(t + 1));
        lemma_weight_sum_prefix(targets.take(at), t + 1);
    }
}

/// The hash is FNV-1a with 64 bits: it starts from the offset basis, and each
/// byte is put in by exclusive or before the prime is multiplied in.
pub proof fn law_hash_is_fnv1a(bytes: Seq<u8>, next: u8)
    ensures
        fnv1a(Seq::empty()) == 0xcbf2_9ce4_8422_2325u64,
        fnv1a(bytes.push(next)) as int == ((fnv1a(bytes) ^ (next as u64)) as int
            * 0x100_0000_01b3int) % 0x1_0000_0000_0000_0000int,
{
    assert(bytes.push(next).drop_last() =~= bytes);
}

/// Where the choice is by chance, it is the hash of the whole request, cut to
/// the machine's word, that decides; and where the choice is by turns, the
/// turn.
pub proof fn law_choice_by_hash_or_turn(
    targets: Seq<HttpUpstreamTarget>,
    turn: usize,
    request: Seq<u8>,
    key: Seq<u8>,
)
    requires
        targets.len() > 1,
        targets.len() <= usize::MAX,
    ensures
        ({
            let n = targets.len() as int;
            let at = chosen(targets, LoadBalanceMethod::Random, turn, request, key);
            &&& 0 <= at < n
            &&& (fnv1a(request) as int % (usize::MAX + 1) - at) % n == 0
        }),
        ({
            let n = targets.len() as int;
            let at = chosen(targets, LoadBalanceMethod::RoundRobin, turn, request, key);
            &&& 0 <= at < n
            &&& (turn - at) % n == 0
        }),
{
    let n = targets.len() as int;
    let h = fnv1a(request) as int % (usize::MAX + 1);
    lemma_remainder(h, n);
    lemma_remainder(turn as int, n);
}

proof fn lemma_remainder(a: int, n: int)
    requires
        n > 0,
    ensures
        0 <= a % n < n,
        (a - a % n) % n == 0,
{
    vstd::arithmetic::div_mod::lemma_fundamental_div_mod(a, n);
    vstd::arithmetic::div_mod::lemma_mod_bound(a, n);
    vstd::arithmetic::div_mod::lemma_mod_multiples_basic(a / n, n);
    assert(a - a % n == (a / n) * n) by (nonlinear_arith)
        requires
            a == n * (a / n) + a % n,
    ;
}

/// What is chosen is one of the targets.
pub(crate) proof fn lemma_chosen_in_bounds(
    targets: Seq<HttpUpstreamTarget>,
    method: LoadBalanceMethod,
    turn: usize,
    request: Seq<u8>,
    key: Seq<u8>,
)
    requires
        targets.len() > 0,
    ensures
        0 <= chosen(targets, method, turn, request, key) < targets.len(),
{
    let n = targets.len() as int;
    vstd::arithmetic::div_mod::lemma_mod_bound(turn as int, n);
    vstd::arithmetic::div_mod::lemma_mod_bound(word_hash(request) as int, n);
    if weight_sum(targets) > 0 {
        let cut = word_hash(key) as nat % 0x1_0000_0000;
        lemma_target_at_in_bounds(targets, cut % weight_sum(targets), 0);
    }
}

} // verus!
