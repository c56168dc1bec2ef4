//! The language-model providers: which exist, which may be tried, and in
//! which order a request goes through them.

use vstd::prelude::*;
use crate::keys::KeyVault;
use crate::text::str_eq;

verus! {

/// A provider as listed in settings.
pub struct LlmProviderInfo {
    pub id: String,
    pub name: String,
    pub available: bool,
}

/// Anthropic's model, available with an `anthropic` key.
pub struct AnthropicProvider;

/// OpenAI's GPT models, available with an `openai` key.
pub struct OpenAiProvider;

/// Google's Gemini, available with a `gemini` key.
pub struct GeminiProvider;

impl AnthropicProvider {
    pub fn name(&self) -> (r: &'static str)
        ensures
            r@ == "Anthropic"@,
    {
        "Anthropic"
    }

    pub fn id(&self) -> (r: &'static str)
        ensures
            r@ == "anthropic"@,
    {
        "anthropic"
    }
}

impl OpenAiProvider {
    pub fn name(&self) -> (r: &'static str)
        ensures
            r@ == "OpenAI GPT"@,
    {
        "OpenAI GPT"
    }

    pub fn id(&self) -> (r: &'static str)
        ensures
            r@ == "openai"@,
    {
        "openai"
    }
}

impl GeminiProvider {
    pub fn name(&self) -> (r: &'static str)
        ensures
            r@ == "Google Gemini"@,
    {
        "Google Gemini"
    }

    pub fn id(&self) -> (r: &'static str)
        ensures
            r@ == "gemini"@,
    {
        "gemini"
    }
}

/// Whether any cloud LLM provider has a key, from the presence of each one.
pub fn any_llm_key(anthropic: bool, openai: bool, gemini: bool) -> (r: bool)
    ensures
        r == (anthropic || openai || gemini),
{
    anthropic || openai || gemini
}

/// Whether any LLM provider key is available: Anthropic, OpenAI or Gemini,
/// each from its environment value (read by the caller) or the credential
/// store. Without one, recipes fall back to their rule-based forms.
pub fn has_any_llm_key(
    keyvault: &KeyVault,
    anthropic_env: Option<String>,
    openai_env: Option<String>,
    gemini_env: Option<String>,
) -> (r: bool)
    ensures
        (anthropic_env is Some || openai_env is Some || gemini_env is Some) ==> r,
{
    let a = keyvault.has_provider_key("anthropic", anthropic_env);
    let o = keyvault.has_provider_key("openai", openai_env);
    let g = keyvault.has_provider_key("gemini", gemini_env);
    any_llm_key(a, o, g)
}

/// The known providers, in their fixed order: identifiers and names.
pub struct LlmRegistry {
    ids: Vec<String>,
    names: Vec<String>,
}

/// Provider `i` was reported available.
pub open spec fn is_avail(available: Seq<bool>, i: int) -> bool {
    0 <= i < available.len() && available[i]
}

/// The first of the first `k` providers with identifier `id`.
pub open spec fn first_index(ids: Seq<Seq<char>>, id: Seq<char>, k: nat) -> Option<int>
    decreases k,
{
    if k == 0 {
        None
    } else {
        match first_index(ids, id, (k - 1) as nat) {
            Some(p) => Some(p),
            None => if ids[k - 1] == id { Some(k - 1) } else { None },
        }
    }
}

/// Among the first `k` providers, in order, those that are available and
/// are not the preferred one.
pub open spec fn fallback_indices(ids: Seq<Seq<char>>, available: Seq<bool>, preferred: Seq<char>, k: nat) -> Seq<int>
    decreases k,
{
    if k == 0 {
        Seq::empty()
    } else {
        let prev = fallback_indices(ids, available, preferred, (k - 1) as nat);
        if ids[k - 1] != preferred && is_avail(available, k - 1) {
            prev.push(k - 1)
        } else {
            prev
        }
    }
}

/// The order in which providers are tried: the preferred one first when it
/// exists and is available, then every other available one in registry
/// order.
pub open spec fn spec_attempt_order(ids: Seq<Seq<char>>, available: Seq<bool>, preferred: Seq<char>) -> Seq<int> {
    (match first_index(ids, preferred, ids.len()) {
        Some(p) => if is_avail(available, p) { seq![p] } else { Seq::empty() },
        None => Seq::empty(),
    }) + fallback_indices(ids, available, preferred, ids.len())
}

impl LlmRegistry {
    pub closed spec fn provider_ids(&self) -> Seq<Seq<char>> {
        Seq::new(self.ids@.len(), |i: int| self.ids@[i]@)
    }

    pub closed spec fn provider_names(&self) -> Seq<Seq<char>> {
        Seq::new(self.names@.len(), |i: int| self.names@[i]@)
    }

    pub closed spec fn wf(&self) -> bool {
        self.ids@.len() == self.names@.len()
    }

    /// A registry of the given providers, each an identifier and a name.
    pub fn new(providers: Vec<(String, String)>) -> (reg: LlmRegistry)
        ensures
            reg.wf(),
            reg.provider_ids().len() == providers@.len(),
            forall|i: int|
                0 <= i < providers@.len() ==> reg.provider_ids()[i] == (#[trigger] providers@[i]).0@
                    && reg.provider_names()[i] == providers@[i].1@,
    {
        let ghost src = providers@;
        let mut ids: Vec<String> = Vec::new();
        let mut names: Vec<String> = Vec::new();
        for p in it: providers
            invariant
                it.seq() == src,
                ids@.len() == it.index(),
                names@.len() == it.index(),
                forall|i: int|
                    0 <= i < it.index() ==> (#[trigger] ids@[i])@ == src[i].0@ && names@[i]@ == src[i].1@,
        {
            let (id, name) = p;
            ids.push(id);
            names.push(name);
        }
        LlmRegistry { ids, names }
    }

    /// The providers for settings, each with whether it was reported
    /// available (`available[i]`, false where the slice is short).
    pub fn list(&self, available: &[bool]) -> (v: Vec<LlmProviderInfo>)
        requires
            self.wf(),
        ensures
            v@.len() == self.provider_ids().len(),
            forall|i: int|
                0 <= i < v@.len() ==> (#[trigger] v@[i]).id@ == self.provider_ids()[i] && v@[i].name@
                    == self.provider_names()[i] && v@[i].available == is_avail(available@, i),
    {
        let mut v: Vec<LlmProviderInfo> = Vec::new();
        let mut i: usize = 0;
        while i < self.ids.len()
            invariant
                self.wf(),
                i <= self.ids@.len(),
                v@.len() == i,
                forall|j: int|
                    0 <= j < i ==> (#[trigger] v@[j]).id@ == self.provider_ids()[j] && v@[j].name@
                        == self.provider_names()[j] && v@[j].available == is_avail(available@, j),
            decreases self.ids@.len() - i,
        {
            let avail = i < available.len() && available[i];
            v.push(LlmProviderInfo {
                id: crate::text::to_owned_string(self.ids[i].as_str()),
                name: crate::text::to_owned_string(self.names[i].as_str()),
                available: avail,
            });
            i += 1;
        }
        v
    }

    /// Indices of the providers to try, in order, for a request when
    /// `preferred` is the user's choice.
    pub fn attempt_order(&self, preferred: &str, available: &[bool]) -> (order: Vec<usize>)
        ensures
            order@.len() == spec_attempt_order(self.provider_ids(), available@, preferred@).len(),
            forall|k: int|
                0 <= k < order@.len() ==> order@[k] as int == #[trigger] spec_attempt_order(
                    self.provider_ids(),
                    available@,
                    preferred@,
                )[k],
    {
        let ghost ids = self.provider_ids();
        let n = self.ids.len();
        let mut first: Option<usize> = None;
        let mut i: usize = 0;
        while i < n
            invariant
                n == self.ids@.len(),
                ids == self.provider_ids(),
                i <= n,
                match first {
                    Some(p) => first_index(ids, preferred@, i as nat) == Some(p as int),
                    None => first_index(ids, preferred@, i as nat) is None,
                },
            decreases n - i,
        {
            if first.is_none() && str_eq(self.ids[i].as_str(), preferred) {
                first = Some(i);
            }
            i += 1;
        }
        let mut order: Vec<usize> = Vec::new();
        match first {
            Some(p) => {
                if p < available.len() && available[p] {
                    order.push(p);
                }
            },
            None => {},
        }
        let ghost head = order@;
        let ghost pre: Seq<int> = match first_index(ids, preferred@, ids.len()) {
            Some(p) => if is_avail(available@, p) { seq![p] } else { Seq::empty() },
            None => Seq::empty(),
        };
        assert(head.len() == pre.len() && forall|k: int| 0 <= k < head.len() ==> head[k] as int == pre[k]);
        let mut j: usize = 0;
        while j < n
            invariant
                n == self.ids@.len(),
                ids == self.provider_ids(),
                j <= n,
                order@.len() == head.len() + fallback_indices(ids, available@, preferred@, j as nat).len(),
                forall|k: int| 0 <= k < head.len() ==> order@[k] == head[k],
                forall|k: int|
                    0 <= k < fallback_indices(ids, available@, preferred@, j as nat).len() ==> order@[head.len() + k] as int
                        == fallback_indices(ids, available@, preferred@, j as nat)[k],
            decreases n - j,
        {
            let same = str_eq(self.ids[j].as_str(), preferred);
            if !same && j < available.len() && available[j] {
                order.push(j);
            }
            j += 1;
        }
        proof {
            let spec = spec_attempt_order(ids, available@, preferred@);
            assert(spec == pre + fallback_indices(ids, available@, preferred@, n as nat));
            assert forall|k: int| 0 <= k < order@.len() implies order@[k] as int == #[trigger] spec[k] by {
                if k < head.len() {
                    assert(order@[k] == head[k]);
                } else {
                    assert(order@[k] as int == fallback_indices(ids, available@, preferred@, n as nat)[k - head.len()]);
                }
            }
        }
        order
    }

    /// The provider a test request goes to: the first with the identifier,
    /// which must be available.
    pub fn test_target(&self, provider_id: &str, available: &[bool]) -> (r: Result<usize, String>)
        ensures
            match first_index(self.provider_ids(), provider_id@, self.provider_ids().len()) {
                None => r == Err::<usize, String>(r->Err_0) && r->Err_0@ == "Unknown provider: "@ + provider_id@,
                Some(p) => if is_avail(available@, p) {
                    r == Ok::<usize, String>(p as usize)
                } else {
                    r == Err::<usize, String>(r->Err_0) && r->Err_0@ == "Provider '"@ + provider_id@
                        + "' is not configured (missing API key or endpoint)."@
                },
            },
    {
        let ghost ids = self.provider_ids();
        let n = self.ids.len();
        let mut i: usize = 0;
        while i < n
            invariant
                n == self.ids@.len(),
                ids == self.provider_ids(),
                i <= n,
                first_index(ids, provider_id@, i as nat) is None,
            decreases n - i,
        {
            if str_eq(self.ids[i].as_str(), provider_id) {
                assert(first_index(ids, provider_id@, (i + 1) as nat) == Some(i as int));
                assert forall|k: nat| k > i implies first_index(ids, provider_id@, k) == Some(i as int) by {
                    lemma_first_index_stable(ids, provider_id@, (i + 1) as nat, k);
                }
                if i < available.len() && available[i] {
                    return Ok(i);
                }
                let mut msg = String::from_str("Provider '");
                msg.append(provider_id);
                msg.append("' is not configured (missing API key or endpoint).");
                return Err(msg);
            }
            i += 1;
        }
        let mut msg = String::from_str("Unknown provider: ");
        msg.append(provider_id);
        Err(msg)
    }
}

proof fn lemma_first_index_stable(ids: Seq<Seq<char>>, id: Seq<char>, k: nat, m: nat)
    requires
        first_index(ids, id, k) is Some,
        k <= m,
    ensures
        first_index(ids, id, m) == first_index(ids, id, k),
    decreases m - k,
{
    if m > k {
        lemma_first_index_stable(ids, id, k, (m - 1) as nat);
    }
}

proof fn lemma_fallback_props(ids: Seq<Seq<char>>, available: Seq<bool>, preferred: Seq<char>, k: nat)
    requires
        k <= ids.len(),
    ensures
        forall|a: int|
            0 <= a < fallback_indices(ids, available, preferred, k).len() ==> {
                let x = #[trigger] fallback_indices(ids, available, preferred, k)[a];
                &&& 0 <= x < k
                &&& is_avail(available, x)
                &&& ids[x] != preferred
            },
        forall|a: int, b: int|
            0 <= a < b < fallback_indices(ids, available, preferred, k).len() ==> fallback_indices(
                ids,
                available,
                preferred,
                k,
            )[a] < fallback_indices(ids, available, preferred, k)[b],
    decreases k,
{
    if k > 0 {
        let prev = fallback_indices(ids, available, preferred, (k - 1) as nat);
        lemma_fallback_props(ids, available, preferred, (k - 1) as nat);
        let cur = fallback_indices(ids, available, preferred, k);
        if ids[k - 1] != preferred && is_avail(available, k - 1) {
            assert(cur == prev.push(k - 1));
            assert forall|a: int| 0 <= a < prev.len() implies cur[a] == prev[a] by {}
        } else {
            assert(cur == prev);
        }
    }
}

proof fn lemma_first_index_props(ids: Seq<Seq<char>>, id: Seq<char>, k: nat)
    requires
        k <= ids.len(),
    ensures
        match first_index(ids, id, k) {
            Some(p) => 0 <= p < k && ids[p] == id,
            None => true,
        },
    decreases k,
{
    if k > 0 {
        lemma_first_index_props(ids, id, (k - 1) as nat);
    }
}

/// Every provider a request tries is available, none is tried twice, and
/// the preferred provider, when it exists and is available, is tried first.
pub proof fn law_attempt_order(ids: Seq<Seq<char>>, available: Seq<bool>, preferred: Seq<char>)
    ensures
        forall|a: int|
            0 <= a < spec_attempt_order(ids, available, preferred).len() ==> is_avail(
                available,
                #[trigger] spec_attempt_order(ids, available, preferred)[a],
            ),
        forall|a: int, b: int|
            0 <= a < b < spec_attempt_order(ids, available, preferred).len() ==> spec_attempt_order(
                ids,
                available,
                preferred,
            )[a] != spec_attempt_order(ids, available, preferred)[b],
        forall|p: int|
            first_index(ids, preferred, ids.len()) == Some(p) && is_avail(available, p) ==> spec_attempt_order(
                ids,
                available,
                preferred,
            )[0] == p,
{
    lemma_fallback_props(ids, available, preferred, ids.len());
    lemma_first_index_props(ids, preferred, ids.len());
    let fb = fallback_indices(ids, available, preferred, ids.len());
    let order = spec_attempt_order(ids, available, preferred);
    match first_index(ids, preferred, ids.len()) {
        Some(p) => {
            if is_avail(available, p) {
                assert(order == seq![p] + fb);
                assert forall|a: int| 0 <= a < order.len() implies is_avail(available, #[trigger] order[a]) by {
                    if a > 0 {
                        assert(order[a] == fb[a - 1]);
                    }
                }
                assert forall|a: int, b: int| 0 <= a < b < order.len() implies order[a] != order[b] by {
                    assert(order[b] == fb[b - 1]);
                    if a > 0 {
                        assert(order[a] == fb[a - 1]);
                    }
                }
            } else {
                assert(order =~= fb);
            }
        },
        None => {
            assert(order =~= fb);
        },
    }
}

/// What a request through the providers does next.
#[derive(Debug)]
pub enum LlmStep {
    /// Call the provider at this registry index.
    Call(usize),
    /// The request is over, with this answer.
    Finish(Result<String, String>),
}

/// The answer when no provider answered.
pub open spec fn no_llm_message() -> Seq<char> {
    "No LLM API key configured. Add an API key in Settings."@
}

/// The next step of a request that goes through `order` (from
/// `attempt_order`), after `tried` calls whose last outcome is `last`:
/// the first success is the answer; a failure moves on to the next
/// provider; when every provider failed, or none was available, the
/// request ends with the no-key error.
pub fn next_llm_step(order: &[usize], tried: usize, last: Option<Result<String, String>>) -> (r: LlmStep)
    ensures
        match last {
            Some(Ok(text)) => r == LlmStep::Finish(Ok(text)),
            _ => if tried < order@.len() {
                r == LlmStep::Call(order@[tried as int])
            } else {
                r matches LlmStep::Finish(Err(m)) && m@ == no_llm_message()
            },
        },
{
    match last {
        Some(Ok(text)) => LlmStep::Finish(Ok(text)),
        _ => {
            if tried < order.len() {
                LlmStep::Call(order[tried])
            } else {
                LlmStep::Finish(Err(String::from_str("No LLM API key configured. Add an API key in Settings.")))
            }
        },
    }
}

} // verus!
