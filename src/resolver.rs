//! Pure policies of the link resolver: retry backoff, retry decisions and
//! deployment-scoped path resolution for the local file tree.
use vstd::prelude::*;
use vstd::string::StringExecFns;

verus! {

/// First backoff step, in milliseconds.
pub const BACKOFF_BASE_MS: u64 = 500;

/// Largest backoff step, in milliseconds.
pub const BACKOFF_CAP_MS: u64 = 30000;

pub open spec fn pow2(n: nat) -> nat
    decreases n,
{
    if n == 0 {
        1
    } else {
        2 * pow2((n - 1) as nat)
    }
}

/// The backoff bound before retry `attempt`: `base * 2^attempt`, capped.
pub open spec fn backoff_spec(attempt: nat) -> nat {
    if BACKOFF_BASE_MS * pow2(attempt) < BACKOFF_CAP_MS {
        (BACKOFF_BASE_MS * pow2(attempt)) as nat
    } else {
        BACKOFF_CAP_MS as nat
    }
}

proof fn lemma_pow2_grows(n: nat)
    ensures
        pow2(n) >= 1,
        pow2(n + 1) == 2 * pow2(n),
    decreases n,
{
    if n > 0 {
        lemma_pow2_grows((n - 1) as nat);
    }
}

/// The bound on the wait before retry `attempt`, in milliseconds.
pub fn backoff(attempt: u32) -> (r: u64)
    ensures
        r == backoff_spec(attempt as nat),
{
    let mut step: u64 = BACKOFF_BASE_MS;
    let mut i: u32 = 0;
    while i < attempt && step < BACKOFF_CAP_MS
        invariant
            i <= attempt,
            step == BACKOFF_BASE_MS * pow2(i as nat),
        decreases attempt - i,
    {
        proof {
            lemma_pow2_grows(i as nat);
        }
        step = step * 2;
        i = i + 1;
    }
    proof {
        if i < attempt {
            // Once the cap is reached, every later step stays above it.
            lemma_pow2_monotone(i as nat, attempt as nat);
            assert(BACKOFF_BASE_MS * pow2(attempt as nat) >= BACKOFF_BASE_MS * pow2(i as nat))
                by (nonlinear_arith)
                requires
                    pow2(attempt as nat) >= pow2(i as nat),
            ;
        }
    }
    if step < BACKOFF_CAP_MS {
        step
    } else {
        BACKOFF_CAP_MS
    }
}

proof fn lemma_pow2_monotone(a: nat, b: nat)
    requires
        a <= b,
    ensures
        pow2(a) <= pow2(b),
    decreases b - a,
{
    if a < b {
        lemma_pow2_monotone(a, (b - 1) as nat);
        lemma_pow2_grows((b - 1) as nat);
    }
}

/// Full jitter: the wait before retry `attempt`, drawn from
/// `[0, backoff(attempt)]` by the random number `draw`.
pub fn jittered_delay(attempt: u32, draw: u64) -> (r: u64)
    ensures
        r <= backoff_spec(attempt as nat),
        r == (draw as nat) % (backoff_spec(attempt as nat) + 1),
{
    let b = backoff(attempt);
    draw % (b + 1)
}

/// What one fetch attempt came to.
#[derive(Debug, Clone, Copy, PartialEq, Eq, Structural)]
pub enum FetchOutcome {
    Success,
    /// A timeout, a server error or a reset connection.
    Transient,
    /// A missing object or malformed bytes.
    Terminal,
}

/// What the retry loop does next.
#[derive(Debug, Clone, Copy, PartialEq, Eq, Structural)]
pub enum RetryAction {
    /// Hand the payload to the caller.
    Deliver,
    /// Hand the error to the caller.
    Fail,
    /// Wait at most `max_delay_ms`, then make attempt `attempt`.
    Retry { attempt: u32, max_delay_ms: u64 },
}

/// Decides after attempt `attempt`: transient failures are retried without
/// limit when retries are enabled; terminal ones never are.
pub fn next_action(retries: bool, attempt: u32, outcome: FetchOutcome) -> (r: RetryAction)
    ensures
        outcome == FetchOutcome::Success ==> r == RetryAction::Deliver,
        outcome == FetchOutcome::Terminal ==> r == RetryAction::Fail,
        outcome == FetchOutcome::Transient && !retries ==> r == RetryAction::Fail,
        outcome == FetchOutcome::Transient && retries ==> r == (RetryAction::Retry {
            attempt: if attempt < u32::MAX { (attempt + 1) as u32 } else { u32::MAX },
            max_delay_ms: backoff_spec(
                if attempt < u32::MAX { (attempt + 1) as nat } else { u32::MAX as nat },
            ) as u64,
        }),
{
    match outcome {
        FetchOutcome::Success => RetryAction::Deliver,
        FetchOutcome::Terminal => RetryAction::Fail,
        FetchOutcome::Transient => {
            if !retries {
                RetryAction::Fail
            } else {
                let next: u32 = if attempt < u32::MAX {
                    attempt + 1
                } else {
                    u32::MAX
                };
                RetryAction::Retry { attempt: next, max_delay_ms: backoff(next) }
            }
        },
    }
}

#[derive(Debug, Clone, Copy, PartialEq, Eq, Structural)]
pub enum ResolverError {
    /// No build directory is known for the deployment.
    UnknownDeployment,
}

/// A resolver over the local file tree. Its configuration is never changed
/// in place: each builder returns a new resolver.
#[derive(Debug, Clone)]
pub struct FileLinkResolver {
    /// Directory that relative links resolve against; `None` for the
    /// working directory.
    pub base_dir: Option<String>,
    /// Build directory of each known deployment, by deployment hash.
    pub aliases: Vec<(String, String)>,
    pub timeout_ms: u64,
    pub retries: bool,
}

/// The path a link resolves to under `base`.
pub open spec fn resolved(base: Option<Seq<char>>, link: Seq<char>) -> Seq<char> {
    match base {
        None => link,
        Some(b) => b + seq!['/'] + link,
    }
}

/// The build directory registered for `hash`: the first matching entry.
pub open spec fn lookup(aliases: Seq<(String, String)>, hash: Seq<char>) -> Option<Seq<char>>
    decreases aliases.len(),
{
    if aliases.len() == 0 {
        None
    } else if aliases[0].0@ == hash {
        Some(aliases[0].1@)
    } else {
        lookup(aliases.drop_first(), hash)
    }
}

impl FileLinkResolver {
    pub open spec fn base_view(&self) -> Option<Seq<char>> {
        match self.base_dir {
            None => None,
            Some(b) => Some(b@),
        }
    }

    pub fn new(base_dir: Option<String>, aliases: Vec<(String, String)>) -> (r: FileLinkResolver)
        ensures
            r.base_dir == base_dir,
            r.aliases == aliases,
            !r.retries,
    {
        FileLinkResolver { base_dir, aliases, timeout_ms: 30000, retries: false }
    }

    fn copy_aliases(&self) -> (r: Vec<(String, String)>)
        ensures
            r@.len() == self.aliases@.len(),
            forall|i: int| 0 <= i < r@.len() ==> #[trigger] r@[i] == self.aliases@[i],
    {
        let mut out: Vec<(String, String)> = Vec::new();
        let mut i: usize = 0;
        while i < self.aliases.len()
            invariant
                i <= self.aliases@.len(),
                out@.len() == i,
                forall|k: int| 0 <= k < i ==> #[trigger] out@[k] == self.aliases@[k],
            decreases self.aliases@.len() - i,
        {
            out.push((self.aliases[i].0.clone(), self.aliases[i].1.clone()));
            i = i + 1;
        }
        out
    }

    fn copy_base(&self) -> (r: Option<String>)
        ensures
            r == self.base_dir,
    {
        match &self.base_dir {
            None => None,
            Some(b) => Some(b.clone()),
        }
    }

    /// The same resolver with a per-call timeout of `timeout_ms`.
    pub fn with_timeout(&self, timeout_ms: u64) -> (r: FileLinkResolver)
        ensures
            r.timeout_ms == timeout_ms,
            r.retries == self.retries,
            r.base_dir == self.base_dir,
            r.aliases@ =~= self.aliases@,
    {
        FileLinkResolver {
            base_dir: self.copy_base(),
            aliases: self.copy_aliases(),
            timeout_ms,
            retries: self.retries,
        }
    }

    /// The same resolver, retrying transient failures without limit.
    pub fn with_retries(&self) -> (r: FileLinkResolver)
        ensures
            r.retries,
            r.timeout_ms == self.timeout_ms,
            r.base_dir == self.base_dir,
            r.aliases@ =~= self.aliases@,
    {
        FileLinkResolver {
            base_dir: self.copy_base(),
            aliases: self.copy_aliases(),
            timeout_ms: self.timeout_ms,
            retries: true,
        }
    }

    /// A resolver rebased on the build directory of `deployment`.
    pub fn for_deployment(&self, deployment: &String) -> (r: Result<
        FileLinkResolver,
        ResolverError,
    >)
        ensures
            lookup(self.aliases@, deployment@) is None ==> r == Err::<FileLinkResolver, _>(
                ResolverError::UnknownDeployment,
            ),
            lookup(self.aliases@, deployment@) is Some ==> r is Ok && r->Ok_0.base_view() == Some(
                lookup(self.aliases@, deployment@)->Some_0,
            ) && r->Ok_0.aliases@ =~= self.aliases@ && r->Ok_0.timeout_ms == self.timeout_ms
                && r->Ok_0.retries == self.retries,
    {
        let mut i: usize = 0;
        proof {
            assert(self.aliases@.subrange(0, self.aliases@.len() as int) =~= self.aliases@);
        }
        while i < self.aliases.len()
            invariant
                i <= self.aliases@.len(),
                lookup(self.aliases@, deployment@) == lookup(
                    self.aliases@.subrange(i as int, self.aliases@.len() as int),
                    deployment@,
                ),
            decreases self.aliases@.len() - i,
        {
            let ghost rest = self.aliases@.subrange(i as int, self.aliases@.len() as int);
            if self.aliases[i].0 == *deployment {
                return Ok(
                    FileLinkResolver {
                        base_dir: Some(self.aliases[i].1.clone()),
                        aliases: self.copy_aliases(),
                        timeout_ms: self.timeout_ms,
                        retries: self.retries,
                    },
                );
            }
            proof {
                assert(rest.drop_first() =~= self.aliases@.subrange(
                    i + 1,
                    self.aliases@.len() as int,
                ));
            }
            i = i + 1;
        }
        Err(ResolverError::UnknownDeployment)
    }

    /// The path that `link` names for this resolver.
    pub fn resolve_path(&self, link: &str) -> (r: String)
        ensures
            r@ == resolved(self.base_view(), link@),
    {
        match &self.base_dir {
            None => link.to_owned(),
            Some(b) => {
                let mut p = b.clone();
                proof {
                    reveal_strlit("/");
                }
                p.append("/");
                p.append(link);
                p
            },
        }
    }
}

} // verus!
