use vstd::prelude::*;
use vstd::string::StrSliceExecFns;

verus! {

/// Which offload backend serves a call when concurrency is enabled.
#[derive(Clone, Copy, PartialEq, Eq, Structural, Debug)]
pub enum Strategy {
    /// One freshly spawned worker thread per admitted call, bounded by a
    /// counting admission primitive.
    BoundedSpawn,
    /// A lazily created pool of long-lived worker threads draining a queue.
    FixedPool,
}

/// Process-wide configuration, resolved once and shared read-only thereafter.
///
/// `max_threads == 0` forces inline execution regardless of the strategy.
#[derive(Clone, Copy, PartialEq, Eq, Structural, Debug)]
pub struct Config {
    pub strategy: Strategy,
    pub max_threads: usize,
}

/// A selector names the fixed pool exactly when it spells "pool",
/// ignoring ASCII case; anything else selects the bounded-spawn backend.
pub open spec fn is_pool_selector(s: Seq<char>) -> bool {
    &&& s.len() == 4
    &&& (s[0] == 'p' || s[0] == 'P')
    &&& (s[1] == 'o' || s[1] == 'O')
    &&& (s[2] == 'o' || s[2] == 'O')
    &&& (s[3] == 'l' || s[3] == 'L')
}

/// The strategy an optional selector string resolves to.
pub open spec fn strategy_of(selector: Option<Seq<char>>) -> Strategy {
    match selector {
        Option::None => Strategy::BoundedSpawn,
        Option::Some(s) => if is_pool_selector(s) {
            Strategy::FixedPool
        } else {
            Strategy::BoundedSpawn
        },
    }
}

pub open spec fn is_digit(c: char) -> bool {
    '0' as int <= c as int && c as int <= '9' as int
}

pub open spec fn digit_val(c: char) -> int {
    c as int - '0' as int
}

/// A non-empty string of decimal digits.
pub open spec fn is_decimal(s: Seq<char>) -> bool {
    s.len() > 0 && forall|i: int| 0 <= i < s.len() ==> is_digit(#[trigger] s[i])
}

/// The number a digit string denotes, most significant digit first.
pub open spec fn decimal_value(s: Seq<char>) -> int
    decreases s.len(),
{
    if s.len() == 0 {
        0
    } else {
        decimal_value(s.drop_last()) * 10 + digit_val(s.last())
    }
}

/// The hardware parallelism, clamped to at least one worker.
pub open spec fn default_threads(hardware: usize) -> usize {
    if hardware >= 1 {
        hardware
    } else {
        1
    }
}

/// The thread count an optional override resolves to: the denoted number when
/// the override is a representable digit string (an explicit `0` is honored),
/// and the clamped hardware default when it is absent or malformed.
pub open spec fn thread_count_of(over: Option<Seq<char>>, hardware: usize) -> usize {
    match over {
        Option::None => default_threads(hardware),
        Option::Some(s) => if is_decimal(s) && decimal_value(s) <= usize::MAX {
            decimal_value(s) as usize
        } else {
            default_threads(hardware)
        },
    }
}

/// The configuration a pair of optional settings resolves to.
pub open spec fn config_of(
    selector: Option<Seq<char>>,
    over: Option<Seq<char>>,
    hardware: usize,
) -> Config {
    Config {
        strategy: strategy_of(selector),
        max_threads: thread_count_of(over, hardware),
    }
}

pub open spec fn opt_str_view(o: Option<&str>) -> Option<Seq<char>> {
    match o {
        Option::None => Option::None,
        Option::Some(s) => Option::Some(s@),
    }
}

/// Appending further digits to a digit string never shrinks its value.
proof fn lemma_decimal_value_grows(s: Seq<char>, i: int)
    requires
        0 <= i <= s.len(),
        decimal_value(s.subrange(0, i)) >= 0,
        forall|j: int| i <= j < s.len() ==> is_digit(#[trigger] s[j]),
    ensures
        decimal_value(s) >= decimal_value(s.subrange(0, i)),
    decreases s.len() - i,
{
    if i == s.len() {
        assert(s.subrange(0, i) =~= s);
    } else {
        assert(s.subrange(0, i + 1).drop_last() =~= s.subrange(0, i));
        assert(s.subrange(0, i + 1).last() == s[i]);
        assert(decimal_value(s.subrange(0, i + 1)) == decimal_value(s.subrange(0, i)) * 10
            + digit_val(s[i]));
        lemma_decimal_value_grows(s, i + 1);
    }
}

/// Maps an optional selector string to the backend it names.
pub fn parse_strategy(selector: Option<&str>) -> (s: Strategy)
    ensures
        s == strategy_of(opt_str_view(selector)),
{
    match selector {
        Option::None => Strategy::BoundedSpawn,
        Option::Some(text) => {
            let n = text.unicode_len();
            if n == 4 {
                let c0 = text.get_char(0);
                let c1 = text.get_char(1);
                let c2 = text.get_char(2);
                let c3 = text.get_char(3);
                if (c0 == 'p' || c0 == 'P') && (c1 == 'o' || c1 == 'O') && (c2 == 'o' || c2
                    == 'O') && (c3 == 'l' || c3 == 'L') {
                    Strategy::FixedPool
                } else {
                    Strategy::BoundedSpawn
                }
            } else {
                Strategy::BoundedSpawn
            }
        },
    }
}

/// Maps an optional thread-count override to the count it resolves to.
/// A malformed override (non-numeric, or too large to represent) is absorbed
/// silently and replaced by the clamped hardware default.
pub fn parse_thread_count(over: Option<&str>, hardware: usize) -> (n: usize)
    ensures
        n == thread_count_of(opt_str_view(over), hardware),
{
    let fallback: usize = if hardware >= 1 {
        hardware
    } else {
        1
    };
    match over {
        Option::None => fallback,
        Option::Some(text) => {
            let len = text.unicode_len();
            if len == 0 {
                return fallback;
            }
            let mut acc: usize = 0;
            let mut i: usize = 0;
            while i < len
                invariant
                    i <= len,
                    len == text@.len(),
                    opt_str_view(over) == Some(text@),
                    fallback == default_threads(hardware),
                    forall|j: int| 0 <= j < i ==> is_digit(#[trigger] text@[j]),
                    acc == decimal_value(text@.subrange(0, i as int)),
                decreases len - i,
            {
                let c = text.get_char(i);
                let u = c as u32;
                if u < 48 || u > 57 {
                    proof {
                        assert(u == c as int);
                        assert(!is_digit(text@[i as int]));
                        assert(!is_decimal(text@));
                    }
                    return fallback;
                }
                let d = (u - 48) as usize;
                proof {
                    assert(text@.subrange(0, i + 1).drop_last() =~= text@.subrange(0, i as int));
                    assert(text@.subrange(0, i + 1).last() == text@[i as int]);
                }
                let next = match acc.checked_mul(10) {
                    Option::Some(m) => m.checked_add(d),
                    Option::None => Option::None,
                };
                match next {
                    Option::Some(v) => {
                        acc = v;
                    },
                    Option::None => {
                        proof {
                            assert(u == c as int);
                            assert(digit_val(text@[i as int]) == d as int);
                            assert(decimal_value(text@.subrange(0, i + 1)) == acc * 10 + d);
                            assert(acc * 10 + d > usize::MAX);
                            if is_decimal(text@) {
                                lemma_decimal_value_grows(text@, i + 1);
                            }
                        }
                        return fallback;
                    },
                }
                i += 1;
            }
            proof {
                assert(text@.subrange(0, len as int) =~= text@);
            }
            acc
        },
    }
}

/// Resolves the two optional settings into one immutable configuration.
/// Every parsing failure is absorbed and replaced with a default; resolution
/// itself never fails.
pub fn resolve_config(selector: Option<&str>, thread_override: Option<&str>, hardware: usize) -> (c:
    Config)
    ensures
        c == config_of(opt_str_view(selector), opt_str_view(thread_override), hardware),
{
    Config {
        strategy: parse_strategy(selector),
        max_threads: parse_thread_count(thread_override, hardware),
    }
}

/// A check-and-initialize cell for the process-wide configuration: the
/// configuration is computed at most once, and every access after the first
/// observes the identical stored instance, never a recomputation.
pub struct ConfigCell {
    slot: Option<Config>,
}

impl ConfigCell {
    /// The configuration stored so far, if any.
    pub closed spec fn resolved(self) -> Option<Config> {
        self.slot
    }

    pub fn new() -> (c: ConfigCell)
        ensures
            c.resolved() is None,
    {
        ConfigCell { slot: Option::None }
    }

    /// Returns the stored configuration, resolving it on first access only:
    /// once the cell holds a configuration, later calls return that same
    /// instance unchanged, whatever settings they are handed.
    pub fn get_or_resolve(
        &mut self,
        selector: Option<&str>,
        thread_override: Option<&str>,
        hardware: usize,
    ) -> (c: Config)
        ensures
            final(self).resolved() == Some(c),
            old(self).resolved() matches Some(prev) ==> c == prev,
            old(self).resolved() is None ==> c == config_of(
                opt_str_view(selector),
                opt_str_view(thread_override),
                hardware,
            ),
    {
        match self.slot {
            Option::Some(c) => c,
            Option::None => {
                let c = resolve_config(selector, thread_override, hardware);
                self.slot = Option::Some(c);
                c
            },
        }
    }
}

} // verus!
