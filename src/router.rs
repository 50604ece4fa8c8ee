//! Backends, their wire conventions, and selection of a backend by the longest
//! registered prefix of a model id.
use vstd::prelude::*;
use vstd::string::{StrSliceExecFns, StringExecFns};

verus! {

/// Whether `p` is a literal prefix of `s`.
pub open spec fn is_prefix_of(p: Seq<char>, s: Seq<char>) -> bool {
    p.len() <= s.len() && s.subrange(0, p.len() as int) == p
}

/// Whether `s` starts with `p`.
pub fn has_prefix(s: &str, p: &str) -> (r: bool)
    ensures
        r == is_prefix_of(p@, s@),
{
    let pn = p.unicode_len();
    let sn = s.unicode_len();
    if pn > sn {
        return false;
    }
    let mut i: usize = 0;
    while i < pn
        invariant
            pn == p@.len(),
            sn == s@.len(),
            pn <= sn,
            i <= pn,
            forall|k: int| 0 <= k < i ==> s@[k] == p@[k],
        decreases pn - i,
    {
        if s.get_char(i) != p.get_char(i) {
            assert(s@.subrange(0, pn as int)[i as int] != p@[i as int]);
            return false;
        }
        i = i + 1;
    }
    assert(s@.subrange(0, pn as int) =~= p@);
    true
}

/// An OpenAI-compatible backend: `{base}/v1/chat/completions`, bearer token.
pub struct OpenAI {
    pub base: String,
    pub key: String,
}

/// An Anthropic-compatible backend: the fixed messages endpoint, key in `x-api-key`.
pub struct Anthropic {
    pub api_key: String,
}

/// A local inference server: `{base}/api/chat`, no credentials.
pub struct Ollama {
    pub base: String,
}

/// A backend handle: what is needed to reach one backend.
pub enum Provider {
    OpenAI(OpenAI),
    Anthropic(Anthropic),
    Ollama(Ollama),
}

/// The endpoint of the Anthropic-compatible backend.
pub open spec fn anthropic_endpoint() -> Seq<char> {
    "https://api.anthropic.com/v1/messages"@
}

impl Provider {
    /// The URL a chat request is posted to.
    pub open spec fn endpoint_spec(&self) -> Seq<char> {
        match self {
            Provider::OpenAI(o) => o.base@ + "/v1/chat/completions"@,
            Provider::Anthropic(_) => anthropic_endpoint(),
            Provider::Ollama(l) => l.base@ + "/api/chat"@,
        }
    }

    /// The credential header sent with a chat request, as name and value.
    pub open spec fn auth_header_spec(&self) -> Option<(Seq<char>, Seq<char>)> {
        match self {
            Provider::OpenAI(o) => Some(("authorization"@, "Bearer "@ + o.key@)),
            Provider::Anthropic(a) => Some(("x-api-key"@, a.api_key@)),
            Provider::Ollama(_) => None,
        }
    }

    pub fn endpoint(&self) -> (r: String)
        ensures
            r@ == self.endpoint_spec(),
    {
        match self {
            Provider::OpenAI(o) => o.base.clone().concat("/v1/chat/completions"),
            Provider::Anthropic(_) => String::from_str("https://api.anthropic.com/v1/messages"),
            Provider::Ollama(l) => l.base.clone().concat("/api/chat"),
        }
    }

    pub fn auth_header(&self) -> (r: Option<(String, String)>)
        ensures
            r matches Some(h) ==> self.auth_header_spec() == Some((h.0@, h.1@)),
            r is None <==> self.auth_header_spec() is None,
    {
        match self {
            Provider::OpenAI(o) => Some(
                (String::from_str("authorization"), String::from_str("Bearer ").concat(o.key.as_str())),
            ),
            Provider::Anthropic(a) => Some((String::from_str("x-api-key"), a.api_key.clone())),
            Provider::Ollama(_) => None,
        }
    }
}

/// One registration: a model-id prefix and the backend it routes to.
pub struct RouterEntry {
    pub prefix: String,
    pub handle: Provider,
}

/// Whether the prefix of `e` is a prefix of `model`.
pub open spec fn entry_matches(e: RouterEntry, model: Seq<char>) -> bool {
    is_prefix_of(e.prefix@, model)
}

/// Entry `i` is the one chosen for `model`: it matches, no matching entry has a longer
/// prefix, and no earlier matching entry has one as long.
pub open spec fn selects(entries: Seq<RouterEntry>, model: Seq<char>, i: int) -> bool {
    &&& 0 <= i < entries.len()
    &&& entry_matches(entries[i], model)
    &&& forall|j: int|
        0 <= j < entries.len() && #[trigger] entry_matches(entries[j], model) ==> (
        entries[j].prefix@.len() < entries[i].prefix@.len() || (entries[j].prefix@.len()
            == entries[i].prefix@.len() && i <= j))
}

/// Some entry matches `model`.
pub open spec fn any_match(entries: Seq<RouterEntry>, model: Seq<char>) -> bool {
    exists|j: int| 0 <= j < entries.len() && #[trigger] entry_matches(entries[j], model)
}

/// No two entries share a prefix.
pub open spec fn prefixes_unique(entries: Seq<RouterEntry>) -> bool {
    forall|i: int, j: int|
        0 <= i < entries.len() && 0 <= j < entries.len() && i != j ==> entries[i].prefix@
            != entries[j].prefix@
}

/// `new` is `old` with `prefix` registered for `p`: an entry of the same prefix has its
/// handle replaced in place; otherwise the entry is appended.
pub open spec fn registered(
    old: Seq<RouterEntry>,
    new: Seq<RouterEntry>,
    prefix: Seq<char>,
    p: Provider,
) -> bool {
    if exists|k: int| 0 <= k < old.len() && #[trigger] old[k].prefix@ == prefix {
        &&& new.len() == old.len()
        &&& forall|k: int|
            0 <= k < old.len() ==> if old[k].prefix@ == prefix {
                new[k].prefix@ == prefix && new[k].handle == p
            } else {
                new[k] == old[k]
            }
    } else {
        &&& new.len() == old.len() + 1
        &&& new.subrange(0, old.len() as int) == old
        &&& new[old.len() as int].prefix@ == prefix
        &&& new[old.len() as int].handle == p
    }
}

/// The registry of prefixes and backends.
pub struct Router {
    entries: Vec<RouterEntry>,
}

impl Router {
    pub closed spec fn entries(&self) -> Seq<RouterEntry> {
        self.entries@
    }

    pub open spec fn wf(&self) -> bool {
        prefixes_unique(self.entries())
    }

    /// An empty registry.
    pub fn new() -> (r: Router)
        ensures
            r.wf(),
            r.entries().len() == 0,
    {
        Router { entries: Vec::new() }
    }

    /// Registers `p` for `prefix`, replacing the handle of an existing equal prefix.
    pub fn add_prefix(&mut self, prefix: &str, p: Provider)
        requires
            old(self).wf(),
        ensures
            final(self).wf(),
            registered(old(self).entries(), final(self).entries(), prefix@, p),
    {
        let n = self.entries.len();
        let mut i: usize = 0;
        while i < n
            invariant
                n == self.entries@.len(),
                i <= n,
                self.entries@ == old(self).entries@,
                prefixes_unique(self.entries@),
                forall|k: int| 0 <= k < i ==> self.entries@[k].prefix@ != prefix@,
            decreases n - i,
        {
            if self.entries[i].prefix.as_str().unicode_len() == prefix.unicode_len() && has_prefix(
                self.entries[i].prefix.as_str(),
                prefix,
            ) {
                let ghost before = self.entries@;
                assert(self.entries@[i as int].prefix@ =~= prefix@);
                self.entries.set(i, RouterEntry { prefix: String::from_str(prefix), handle: p });
                assert forall|k: int| 0 <= k < n implies (if before[k].prefix@ == prefix@ {
                    self.entries@[k].prefix@ == prefix@ && self.entries@[k].handle == p
                } else {
                    self.entries@[k] == before[k]
                }) by {
                    if k != i && before[k].prefix@ == prefix@ {
                        assert(before[k].prefix@ == before[i as int].prefix@);
                    }
                }
                assert(prefixes_unique(self.entries@)) by {
                    assert forall|a: int, b: int|
                        0 <= a < n && 0 <= b < n && a != b implies self.entries@[a].prefix@
                        != self.entries@[b].prefix@ by {
                        assert(before[a].prefix@ != before[b].prefix@);
                    }
                }
                return;
            }
            proof {
                let e = self.entries@[i as int].prefix@;
                if e == prefix@ {
                    assert(e.subrange(0, e.len() as int) =~= e);
                }
            }
            i = i + 1;
        }
        let ghost before = self.entries@;
        self.entries.push(RouterEntry { prefix: String::from_str(prefix), handle: p });
        assert(self.entries@.subrange(0, n as int) =~= before);
        assert(prefixes_unique(self.entries@)) by {
            assert forall|a: int, b: int|
                0 <= a <= n && 0 <= b <= n && a != b implies self.entries@[a].prefix@
                != self.entries@[b].prefix@ by {
                if a < n && b < n {
                    assert(before[a].prefix@ != before[b].prefix@);
                }
            }
        }
    }

    /// The index of the entry chosen for `model`: the longest matching prefix,
    /// the earliest registered among equally long ones.
    pub fn route_index(&self, model: &str) -> (r: Option<usize>)
        ensures
            r is None <==> !any_match(self.entries(), model@),
            r matches Some(i) ==> selects(self.entries(), model@, i as int),
    {
        let n = self.entries.len();
        let mut best: Option<usize> = None;
        let mut best_len: usize = 0;
        let mut i: usize = 0;
        while i < n
            invariant
                n == self.entries@.len(),
                i <= n,
                best is None ==> forall|j: int|
                    0 <= j < i ==> !#[trigger] entry_matches(self.entries@[j], model@),
                best matches Some(b) ==> b < i && best_len == self.entries@[b as int].prefix@.len()
                    && forall|j: int|
                    0 <= j < i && #[trigger] entry_matches(self.entries@[j], model@) ==> (
                    self.entries@[j].prefix@.len() < self.entries@[b as int].prefix@.len() || (
                    self.entries@[j].prefix@.len() == self.entries@[b as int].prefix@.len() && b
                        <= j)),
                best matches Some(b) ==> entry_matches(self.entries@[b as int], model@),
            decreases n - i,
        {
            let pre = self.entries[i].prefix.as_str();
            if has_prefix(model, pre) {
                let len = pre.unicode_len();
                if best.is_none() || len > best_len {
                    best = Some(i);
                    best_len = len;
                }
            }
            i = i + 1;
        }
        best
    }

    /// The backend chosen for `model`, or none when no prefix matches.
    pub fn route(&self, model: &str) -> (r: Option<&Provider>)
        ensures
            r is None <==> !any_match(self.entries(), model@),
            r matches Some(p) ==> exists|i: int|
                selects(self.entries(), model@, i) && *p == self.entries()[i].handle,
    {
        match self.route_index(model) {
            Some(i) => Some(&self.entries[i].handle),
            None => None,
        }
    }
}

/// Among two matching prefixes, the shorter is never chosen.
pub proof fn lemma_longest_prefix_wins(entries: Seq<RouterEntry>, model: Seq<char>, i: int, j: int)
    requires
        0 <= i < entries.len(),
        0 <= j < entries.len(),
        entry_matches(entries[i], model),
        entry_matches(entries[j], model),
        entries[i].prefix@.len() < entries[j].prefix@.len(),
    ensures
        !selects(entries, model, i),
{
}

/// The choice is determined by the entries and the model id alone: at most one
/// entry is chosen.
pub proof fn lemma_selection_unique(entries: Seq<RouterEntry>, model: Seq<char>, i: int, j: int)
    requires
        selects(entries, model, i),
        selects(entries, model, j),
    ensures
        i == j,
{
}

/// When some entry matches, one is chosen.
pub proof fn lemma_selection_exists(entries: Seq<RouterEntry>, model: Seq<char>)
    requires
        any_match(entries, model),
    ensures
        exists|i: int| selects(entries, model, i),
    decreases entries.len(),
{
    let last = entries.len() - 1;
    let init = entries.drop_last();
    if any_match(init, model) {
        lemma_selection_exists(init, model);
        let i = choose|i: int| selects(init, model, i);
        assert(init[i] == entries[i]);
        if entry_matches(entries[last], model) && entries[last].prefix@.len()
            > entries[i].prefix@.len() {
            assert forall|j: int|
                0 <= j < entries.len() && #[trigger] entry_matches(entries[j], model) implies (
            entries[j].prefix@.len() < entries[last].prefix@.len() || (entries[j].prefix@.len()
                == entries[last].prefix@.len() && last <= j)) by {
                if j < last {
                    assert(init[j] == entries[j]);
                }
            }
            assert(selects(entries, model, last));
        } else {
            assert forall|j: int|
                0 <= j < entries.len() && #[trigger] entry_matches(entries[j], model) implies (
            entries[j].prefix@.len() < entries[i].prefix@.len() || (entries[j].prefix@.len()
                == entries[i].prefix@.len() && i <= j)) by {
                if j < last {
                    assert(init[j] == entries[j]);
                }
            }
            assert(selects(entries, model, i));
        }
    } else {
        let j = choose|j: int| 0 <= j < entries.len() && #[trigger] entry_matches(entries[j], model);
        assert forall|k: int|
            0 <= k < entries.len() && #[trigger] entry_matches(entries[k], model) implies k
            == last by {
            if k < last {
                assert(init[k] == entries[k]);
                assert(entry_matches(init[k], model));
            }
        }
        assert(j == last);
        assert(selects(entries, model, last));
    }
}

} // verus!
