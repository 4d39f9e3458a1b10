//! TLS connections that are passed through unopened: the name that the client
//! asks for, and the target that it goes to.
use vstd::prelude::*;
use vstd::utf8::{decode_utf8, encode_utf8, valid_utf8};
use crate::gateway::balance::{
    can_choose, chosen, fnv1a, law_consistent_choice_by_share, next_turn, total_weight, weights_fit,
};
use crate::gateway::domains::{any_domain_matches, domain_matches};
use crate::gateway::outside::text_from_utf8;
use crate::gateway::rules::{
    HttpUpstreamMatchRule, HttpUpstreamRuleConfig, HttpUpstreamTarget, LoadBalanceMethod,
};
use crate::text::{lower, opt_text, to_lower};

verus! {

/// The rules in force, and whose turn it is.
pub struct SniProxyRouter {
    rules: Vec<HttpUpstreamRuleConfig>,
    round_robin_counter: usize,
}

/// Where a connection goes.
#[derive(Debug)]
pub struct MatchedSniTarget {
    pub rule_name: String,
    pub sni: String,
    pub target: HttpUpstreamTarget,
}

/// Whether an enabled rule passes connections through.
pub open spec fn passes_through(rule: HttpUpstreamRuleConfig) -> bool {
    rule.enable && rule.match_rule is SniProxy
}

/// Whether a rule passes connections to a name through.
pub open spec fn sni_rule_matches(
    rule: HttpUpstreamRuleConfig,
    sni: Seq<char>,
    wildcard_only: bool,
) -> bool {
    passes_through(rule) && any_domain_matches(rule.domains@, sni, wildcard_only)
}

/// The first rule from number `i` on for a name.
pub open spec fn first_sni_rule(
    rules: Seq<HttpUpstreamRuleConfig>,
    sni: Seq<char>,
    wildcard_only: bool,
    i: int,
) -> Option<int>
    decreases rules.len() - i,
{
    if i < 0 || i >= rules.len() {
        None
    } else if sni_rule_matches(rules[i], sni, wildcard_only) {
        Some(i)
    } else {
        first_sni_rule(rules, sni, wildcard_only, i + 1)
    }
}

/// The rule for a name: one that names it goes before one that covers it by a
/// wildcard.
pub open spec fn sni_rule(rules: Seq<HttpUpstreamRuleConfig>, sni: Seq<char>) -> Option<int> {
    match first_sni_rule(rules, sni, false, 0) {
        Some(i) => Some(i),
        None => first_sni_rule(rules, sni, true, 0),
    }
}

/// Where a connection to a name goes; `turns` are the turn before and after.
pub open spec fn connection_matched(
    rules: Seq<HttpUpstreamRuleConfig>,
    turns: (usize, usize),
    sni: Seq<char>,
    r: Option<MatchedSniTarget>,
) -> bool {
    match sni_rule(rules, sni) {
        None => r is None && turns.1 == turns.0,
        Some(i) => {
            let rule = rules[i];
            let targets = rule.upstream.targets@;
            let method = rule.upstream.load_balance;
            let bytes = encode_utf8(sni);
            &&& 0 <= i < rules.len()
            &&& turns.1 == next_turn(targets, method, turns.0)
            &&& if targets.len() == 0 {
                r is None
            } else {
                let at = chosen(targets, method, turns.0, bytes, bytes);
                &&& 0 <= at < targets.len()
                &&& r matches Some(m) && m.rule_name@ == rule.name@ && m.sni@ == sni && m.target
                    == targets[at]
            }
        },
    }
}

/// The target for a name: none where there are no targets.
pub fn select_target(
    targets: &Vec<HttpUpstreamTarget>,
    method: LoadBalanceMethod,
    counter: &mut usize,
    sni: &str,
) -> (r: Option<usize>)
    requires
        weights_fit(targets@, method),
    ensures
        match r {
            Some(at) => at < targets@.len() && at == chosen(
                targets@,
                method,
                *old(counter),
                encode_utf8(sni@),
                encode_utf8(sni@),
            ),
            None => targets@.len() == 0,
        },
        *final(counter) == next_turn(targets@, method, *old(counter)),
{
    if targets.len() == 0 {
        return None;
    }
    proof {
        reveal_strlit("");
        assert(""@ =~= Seq::<char>::empty());
        assert(encode_utf8(""@) =~= Seq::<u8>::empty());
        assert(encode_utf8(sni@) + encode_utf8(""@) =~= encode_utf8(sni@));
    }
    Some(crate::gateway::balance::select_target(targets, method, counter, sni, ""))
}

impl SniProxyRouter {
    pub closed spec fn rules(&self) -> Seq<HttpUpstreamRuleConfig> {
        self.rules@
    }

    /// Whose turn it is.
    pub closed spec fn turn(&self) -> usize {
        self.round_robin_counter
    }

    pub fn new(rules: Vec<HttpUpstreamRuleConfig>) -> (r: Self)
        ensures
            r.rules() == rules@,
            r.turn() == 0,
    {
        SniProxyRouter { rules, round_robin_counter: 0 }
    }

    /// Puts other rules in force; the turns go on.
    pub fn replace_rules(&mut self, rules: Vec<HttpUpstreamRuleConfig>)
        ensures
            final(self).rules() == rules@,
            final(self).turn() == old(self).turn(),
    {
        self.rules = rules;
    }

    pub fn has_sni_proxy_rules(&self) -> (r: bool)
        ensures
            r == exists|i: int|
                0 <= i < self.rules().len() && passes_through(#[trigger] self.rules()[i]),
    {
        let n: usize = self.rules.len();
        for i in 0..n
            invariant
                n == self.rules@.len(),
                forall|k: int| 0 <= k < i ==> !passes_through(#[trigger] self.rules@[k]),
        {
            let rule = &self.rules[i];
            if rule.enable {
                if let HttpUpstreamMatchRule::SniProxy = &rule.match_rule {
                    assert(passes_through(self.rules()[i as int]));
                    return true;
                }
            }
        }
        false
    }

    fn find(&self, sni: &str, wildcard_only: bool) -> (r: Option<usize>)
        ensures
            match first_sni_rule(self.rules(), sni@, wildcard_only, 0) {
                Some(i) => r is Some && r->0 == i && 0 <= i < self.rules().len(),
                None => r is None,
            },
    {
        let n: usize = self.rules.len();
        for i in 0..n
            invariant
                n == self.rules@.len(),
                first_sni_rule(self.rules@, sni@, wildcard_only, 0) == first_sni_rule(
                    self.rules@,
                    sni@,
                    wildcard_only,
                    i as int,
                ),
        {
            let rule = &self.rules[i];
            if rule.enable {
                if let HttpUpstreamMatchRule::SniProxy = &rule.match_rule {
                    if domain_matches(&rule.domains, sni, wildcard_only) {
                        return Some(i);
                    }
                }
            }
        }
        None
    }

    /// Whether a target can be chosen for a connection to a name.
    pub fn can_match(&self, sni: &str) -> (r: bool)
        ensures
            r == match sni_rule(self.rules(), sni@) {
                Some(i) => weights_fit(
                    self.rules()[i].upstream.targets@,
                    self.rules()[i].upstream.load_balance,
                ),
                None => true,
            },
    {
        match self.find_rule(sni) {
            Some(i) => can_choose(
                &self.rules[i].upstream.targets,
                self.rules[i].upstream.load_balance,
            ),
            None => true,
        }
    }

    fn find_rule(&self, sni: &str) -> (r: Option<usize>)
        ensures
            match sni_rule(self.rules(), sni@) {
                Some(i) => r is Some && r->0 == i && 0 <= i < self.rules().len(),
                None => r is None,
            },
    {
        match self.find(sni, false) {
            Some(i) => Some(i),
            None => self.find(sni, true),
        }
    }

    /// Where a connection to a name goes: nowhere without a rule, or where the
    /// rule has no targets.
    pub fn match_target(&mut self, sni: &str) -> (r: Option<MatchedSniTarget>)
        requires
            sni_rule(old(self).rules(), sni@) matches Some(i) ==> weights_fit(
                old(self).rules()[i].upstream.targets@,
                old(self).rules()[i].upstream.load_balance,
            ),
        ensures
            final(self).rules() == old(self).rules(),
            connection_matched(
                old(self).rules(),
                (old(self).turn(), final(self).turn()),
                sni@,
                r,
            ),
    {
        match self.find_rule(sni) {
            None => None,
            Some(i) => {
                let mut turn: usize = self.round_robin_counter;
                let at: usize = match select_target(
                    &self.rules[i].upstream.targets,
                    self.rules[i].upstream.load_balance,
                    &mut turn,
                    sni,
                ) {
                    Some(at) => at,
                    None => {
                        return None;
                    },
                };
                let m = MatchedSniTarget {
                    rule_name: self.rules[i].name.clone(),
                    sni: sni.to_owned(),
                    target: self.rules[i].upstream.targets[at].clone(),
                };
                self.round_robin_counter = turn;
                Some(m)
            },
        }
    }
}

/// Two bytes as a number, the high one first.
pub open spec fn be16(b: Seq<u8>, i: int) -> int {
    b[i] * 256 + b[i + 1]
}

/// The handshake data in a TLS record, where the bytes hold all of it.
pub open spec fn handshake_of(buf: Seq<u8>) -> Option<Seq<u8>> {
    if buf.len() < 5 || buf[0] != 0x16 || buf.len() < 5 + be16(buf, 3) {
        None
    } else {
        Some(buf.subrange(5, 5 + be16(buf, 3)))
    }
}

/// The body of a client hello, where the handshake data holds all of it.
pub open spec fn hello_of(hs: Seq<u8>) -> Option<Seq<u8>> {
    if hs.len() < 4 || hs[0] != 0x01 {
        None
    } else {
        let len = hs[1] * 65536 + hs[2] * 256 + hs[3];
        if hs.len() < 4 + len {
            None
        } else {
            Some(hs.subrange(4, 4 + len))
        }
    }
}

/// Where the length of the extensions stands in a client hello: behind the
/// version and the random bytes, the session number, the cipher suites and the
/// compression methods.
pub open spec fn extensions_at(ch: Seq<u8>) -> Option<int> {
    if ch.len() <= 34 {
        None
    } else {
        let suites = 35 + ch[34];
        if suites + 2 > ch.len() {
            None
        } else {
            let methods = suites + 2 + be16(ch, suites);
            if methods >= ch.len() {
                None
            } else {
                let at = methods + 1 + ch[methods];
                if at + 2 > ch.len() {
                    None
                } else {
                    Some(at)
                }
            }
        }
    }
}

/// The extensions of a client hello.
pub open spec fn extensions_of(ch: Seq<u8>) -> Option<Seq<u8>> {
    match extensions_at(ch) {
        None => None,
        Some(at) => if at + 2 + be16(ch, at) > ch.len() {
            None
        } else {
            Some(ch.subrange(at + 2, at + 2 + be16(ch, at)))
        },
    }
}

/// The data of the first server name extension from position `pos` on. An
/// extension that runs over the end ends the search.
pub open spec fn name_extension(exts: Seq<u8>, pos: int) -> Option<Seq<u8>>
    decreases exts.len() - pos,
{
    if pos < 0 || pos + 4 > exts.len() {
        None
    } else {
        let len = be16(exts, pos + 2);
        if pos + 4 + len > exts.len() {
            None
        } else if be16(exts, pos) == 0 {
            Some(exts.subrange(pos + 4, pos + 4 + len))
        } else {
            name_extension(exts, pos + 4 + len)
        }
    }
}

/// The first host name in a list of names from position `pos` on. A name that
/// runs over the end ends the search.
pub open spec fn host_name(list: Seq<u8>, pos: int) -> Option<Seq<u8>>
    decreases list.len() - pos,
{
    if pos < 0 || pos + 3 > list.len() {
        None
    } else {
        let len = be16(list, pos + 1);
        if pos + 3 + len > list.len() {
            None
        } else if list[pos] == 0 {
            Some(list.subrange(pos + 3, pos + 3 + len))
        } else {
            host_name(list, pos + 3 + len)
        }
    }
}

/// The host name in the data of a server name extension.
pub open spec fn name_of_extension(data: Seq<u8>) -> Option<Seq<u8>> {
    if data.len() < 2 || data.len() < 2 + be16(data, 0) {
        None
    } else {
        host_name(data.subrange(2, 2 + be16(data, 0)), 0)
    }
}

/// A host name as text in lower case, where it is UTF-8.
pub open spec fn text_of_name(name: Option<Seq<u8>>) -> Option<Seq<char>> {
    match name {
        Some(b) => if valid_utf8(b) {
            Some(lower(decode_utf8(b)))
        } else {
            None
        },
        None => None,
    }
}

/// The name that a client hello asks for.
pub open spec fn sni_of(buf: Seq<u8>) -> Option<Seq<char>> {
    match handshake_of(buf) {
        None => None,
        Some(hs) => match hello_of(hs) {
            None => None,
            Some(ch) => match extensions_of(ch) {
                None => None,
                Some(exts) => match name_extension(exts, 0) {
                    None => None,
                    Some(data) => text_of_name(name_of_extension(data)),
                },
            },
        },
    }
}

fn read16(b: &[u8], i: usize) -> (r: usize)
    requires
        i + 1 < b@.len(),
    ensures
        r == be16(b@, i as int),
        r <= 0xffff,
{
    b[i] as usize * 256 + b[i + 1] as usize
}

/// A part of some bytes as a list of its own.
fn part(b: &[u8], from: usize, to: usize) -> (r: Vec<u8>)
    requires
        from <= to <= b@.len(),
    ensures
        r@ == b@.subrange(from as int, to as int),
{
    let mut r: Vec<u8> = Vec::new();
    assert(r@ =~= b@.subrange(from as int, from as int));
    for i in from..to
        invariant
            from <= to <= b@.len(),
            from <= i,
            r@ == b@.subrange(from as int, i as int),
    {
        r.push(b[i]);
        assert(b@.subrange(from as int, i + 1) =~= b@.subrange(from as int, i as int).push(
            b@[i as int],
        ));
    }
    r
}

fn parse_hello(buf: &[u8]) -> (r: Option<Vec<u8>>)
    ensures
        match r {
            Some(ch) => handshake_of(buf@) is Some && hello_of(handshake_of(buf@)->0) == Some(ch@),
            None => handshake_of(buf@) is None || hello_of(handshake_of(buf@)->0) is None,
        },
{
    let n: usize = buf.len();
    if n < 5 || buf[0] != 0x16 {
        return None;
    }
    let record_len: usize = read16(buf, 3);
    if n - 5 < record_len {
        return None;
    }
    let handshake = part(buf, 5, 5 + record_len);
    if record_len < 4 || handshake[0] != 0x01 {
        return None;
    }
    let hs_len: usize = handshake[1] as usize * 65536 + handshake[2] as usize * 256
        + handshake[3] as usize;
    if record_len - 4 < hs_len {
        return None;
    }
    Some(part(&handshake, 4, 4 + hs_len))
}

fn parse_extensions(ch: &Vec<u8>) -> (r: Option<Vec<u8>>)
    ensures
        match r {
            Some(exts) => extensions_of(ch@) == Some(exts@),
            None => extensions_of(ch@) is None,
        },
{
    let n: usize = ch.len();
    if n <= 34 {
        return None;
    }
    let suites: usize = 35 + ch[34] as usize;
    if n < 2 || suites > n - 2 {
        return None;
    }
    let suites_len: usize = read16(ch, suites);
    if suites_len >= n - 2 - suites {
        return None;
    }
    let methods: usize = suites + 2 + suites_len;
    let methods_len: usize = ch[methods] as usize;
    if n - methods < 3 || methods_len > n - methods - 3 {
        return None;
    }
    let at: usize = methods + 1 + methods_len;
    let ext_len: usize = read16(ch, at);
    if ext_len > n - 2 - at {
        return None;
    }
    Some(part(ch, at + 2, at + 2 + ext_len))
}

fn find_name_extension(exts: &Vec<u8>) -> (r: Option<Vec<u8>>)
    ensures
        match r {
            Some(data) => name_extension(exts@, 0) == Some(data@),
            None => name_extension(exts@, 0) is None,
        },
{
    let n: usize = exts.len();
    let mut pos: usize = 0;
    while n >= 4 && pos <= n - 4
        invariant
            n == exts@.len(),
            pos <= n,
            name_extension(exts@, 0) == name_extension(exts@, pos as int),
        decreases n - pos,
    {
        let ext_type: usize = read16(exts, pos);
        let len: usize = read16(exts, pos + 2);
        if len > n - pos - 4 {
            return None;
        }
        if ext_type == 0 {
            return Some(part(exts, pos + 4, pos + 4 + len));
        }
        pos = pos + 4 + len;
    }
    None
}

fn parse_sni_extension(data: &Vec<u8>) -> (r: Option<String>)
    ensures
        opt_text(r) == text_of_name(name_of_extension(data@)),
{
    if data.len() < 2 {
        return None;
    }
    let list_len: usize = read16(data, 0);
    if data.len() - 2 < list_len {
        return None;
    }
    let list = part(data, 2, 2 + list_len);
    let mut pos: usize = 0;
    while list_len >= 3 && pos <= list_len - 3
        invariant
            list_len == list@.len(),
            pos <= list_len,
            name_of_extension(data@) == host_name(list@, 0),
            host_name(list@, 0) == host_name(list@, pos as int),
        decreases list_len - pos,
    {
        let len: usize = read16(&list, pos + 1);
        if len > list_len - pos - 3 {
            return None;
        }
        if list[pos] == 0 {
            let name = part(&list, pos + 3, pos + 3 + len);
            return match text_from_utf8(name) {
                Some(text) => Some(to_lower(&text)),
                None => None,
            };
        }
        pos = pos + 3 + len;
    }
    None
}

/// The name that a client hello asks for, from its first bytes.
pub fn parse_sni_from_client_hello(buf: &[u8]) -> (r: Option<String>)
    ensures
        opt_text(r) == sni_of(buf@),
{
    match parse_hello(buf) {
        None => None,
        Some(ch) => match parse_extensions(&ch) {
            None => None,
            Some(exts) => match find_name_extension(&exts) {
                None => None,
                Some(data) => parse_sni_extension(&data),
            },
        },
    }
}

/// A name is found only once the whole record is there.
pub proof fn law_truncated_hello_has_no_name(buf: Seq<u8>, n: int)
    requires
        0 <= n <= buf.len(),
        buf.len() >= 5,
        n < 5 + be16(buf, 3),
    ensures
        sni_of(buf.take(n)) is None,
{
    if n >= 5 {
        assert(be16(buf.take(n), 3) == be16(buf, 3));
    }
}

/// What follows the record makes no difference.
pub proof fn law_bytes_after_record_ignored(buf: Seq<u8>, more: Seq<u8>)
    requires
        buf.len() >= 5,
        buf.len() >= 5 + be16(buf, 3),
    ensures
        sni_of(buf + more) == sni_of(buf),
{
    let longer = buf + more;
    assert(be16(longer, 3) == be16(buf, 3));
    assert(longer.subrange(5, 5 + be16(buf, 3)) =~= buf.subrange(5, 5 + be16(buf, 3)));
}

proof fn lemma_first_sni_rule(
    rules: Seq<HttpUpstreamRuleConfig>,
    sni: Seq<char>,
    wildcard_only: bool,
    i: int,
)
    requires
        0 <= i,
    ensures
        match first_sni_rule(rules, sni, wildcard_only, i) {
            Some(k) => i <= k < rules.len() && sni_rule_matches(rules[k], sni, wildcard_only),
            None => forall|j: int|
                i <= j < rules.len() ==> !sni_rule_matches(
                    #[trigger] rules[j],
                    sni,
                    wildcard_only,
                ),
        },
    decreases rules.len() - i,
{
    if i < rules.len() && !sni_rule_matches(rules[i], sni, wildcard_only) {
        lemma_first_sni_rule(rules, sni, wildcard_only, i + 1);
    }
}

/// A rule that names the host goes before every wildcard, wherever they stand,
/// and no disabled rule is ever taken.
pub proof fn law_exact_name_first(rules: Seq<HttpUpstreamRuleConfig>, sni: Seq<char>, i: int)
    requires
        0 <= i < rules.len(),
        sni_rule_matches(rules[i], sni, false),
    ensures
        sni_rule(rules, sni) is Some,
        sni_rule_matches(rules[sni_rule(rules, sni)->0], sni, false),
{
    lemma_first_sni_rule(rules, sni, false, 0);
}

/// Without a rule that passes connections through nothing is passed through.
pub proof fn law_no_rule_no_target(rules: Seq<HttpUpstreamRuleConfig>, sni: Seq<char>)
    requires
        forall|i: int| 0 <= i < rules.len() ==> !passes_through(#[trigger] rules[i]),
    ensures
        sni_rule(rules, sni) is None,
{
    lemma_first_sni_rule(rules, sni, false, 0);
    lemma_first_sni_rule(rules, sni, true, 0);
}

/// How good a rule is for passing connections to a name through: best where
/// one of its domains is the name, next where a wildcard covers it, and not at
/// all where it is disabled or for something else.
pub open spec fn sni_rank(rule: HttpUpstreamRuleConfig, sni: Seq<char>) -> int {
    if !rule.enable || rule.match_rule != HttpUpstreamMatchRule::SniProxy {
        2
    } else if any_domain_matches(rule.domains@, sni, false) {
        0
    } else if any_domain_matches(rule.domains@, sni, true) {
        1
    } else {
        2
    }
}

proof fn lemma_first_sni_rule_is_first(
    rules: Seq<HttpUpstreamRuleConfig>,
    sni: Seq<char>,
    wildcard_only: bool,
    i: int,
)
    requires
        0 <= i,
    ensures
        first_sni_rule(rules, sni, wildcard_only, i) matches Some(k) ==> forall|j: int|
            i <= j < k ==> !sni_rule_matches(#[trigger] rules[j], sni, wildcard_only),
    decreases rules.len() - i,
{
    if i < rules.len() && !sni_rule_matches(rules[i], sni, wildcard_only) {
        lemma_first_sni_rule_is_first(rules, sni, wildcard_only, i + 1);
    }
}

/// The rule for a name is the first of the best ones; there is none only where
/// no rule is for the name.
pub proof fn law_best_sni_rule_is_taken(rules: Seq<HttpUpstreamRuleConfig>, sni: Seq<char>)
    ensures
        match sni_rule(rules, sni) {
            Some(i) => {
                &&& 0 <= i < rules.len()
                &&& sni_rank(rules[i], sni) < 2
                &&& forall|j: int|
                    0 <= j < rules.len() ==> sni_rank(rules[i], sni) <= sni_rank(
                        #[trigger] rules[j],
                        sni,
                    )
                &&& forall|j: int|
                    0 <= j < i ==> sni_rank(rules[i], sni) < sni_rank(#[trigger] rules[j], sni)
            },
            None => forall|j: int|
                0 <= j < rules.len() ==> sni_rank(#[trigger] rules[j], sni) == 2,
        },
{
    lemma_first_sni_rule(rules, sni, false, 0);
    lemma_first_sni_rule(rules, sni, true, 0);
    lemma_first_sni_rule_is_first(rules, sni, false, 0);
    lemma_first_sni_rule_is_first(rules, sni, true, 0);
    assert forall|j: int| 0 <= j < rules.len() implies (sni_rank(#[trigger] rules[j], sni) == 0
        <==> sni_rule_matches(rules[j], sni, false)) && (sni_rank(rules[j], sni) == 1
        ==> sni_rule_matches(rules[j], sni, true)) && (sni_rule_matches(rules[j], sni, true)
        ==> sni_rank(rules[j], sni) <= 1) by {}
}

/// A connection goes to a target of the rule for its name, and nowhere where
/// there is no rule or the rule has no targets. By weight it is the target into
/// whose share the hash of the name falls, and by turns the one whose turn it
/// is.
pub proof fn law_connection_goes_to_its_target(
    rules: Seq<HttpUpstreamRuleConfig>,
    turns: (usize, usize),
    sni: Seq<char>,
    r: Option<MatchedSniTarget>,
)
    requires
        connection_matched(rules, turns, sni, r),
    ensures
        match r {
            Some(m) => {
                &&& sni_rule(rules, sni) matches Some(i)
                &&& m.rule_name@ == rules[i].name@
                &&& m.sni@ == sni
                &&& {
                    let targets = rules[i].upstream.targets@;
                    let method = rules[i].upstream.load_balance;
                    let point = (fnv1a(encode_utf8(sni)) as int % 0x1_0000_0000) % total_weight(
                        targets,
                    );
                    exists|at: int|
                        0 <= at < targets.len() && m.target == (#[trigger] targets[at]) && (
                        targets.len() > 1 && method == LoadBalanceMethod::Consistent
                            && total_weight(targets) > 0 ==> total_weight(targets.take(at)) <= point
                            < total_weight(targets.take(at)) + targets[at].weight) && (targets.len()
                            > 1 && method == LoadBalanceMethod::RoundRobin ==> at == turns.0 as int
                            % targets.len() as int)
                }
            },
            None => sni_rule(rules, sni) matches Some(i) ==> rules[i].upstream.targets@.len() == 0,
        },
        turns.1 == match sni_rule(rules, sni) {
            Some(i) => if rules[i].upstream.targets@.len() > 1 && rules[i].upstream.load_balance
                == LoadBalanceMethod::RoundRobin {
                turns.0.wrapping_add(1)
            } else {
                turns.0
            },
            None => turns.0,
        },
{
    if let Some(i) = sni_rule(rules, sni) {
        let targets = rules[i].upstream.targets@;
        let method = rules[i].upstream.load_balance;
        let bytes = encode_utf8(sni);
        if targets.len() > 0 {
            let at = chosen(targets, method, turns.0, bytes, bytes);
            assert(r->0.target == targets[at]);
            if targets.len() > 1 && method == LoadBalanceMethod::Consistent {
                law_consistent_choice_by_share(targets, turns.0, bytes, bytes);
            }
        }
    }
}

} // verus!
