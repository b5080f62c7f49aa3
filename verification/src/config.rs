//! The routing and permission table: which repository a guild or a channel
//! reports to, and which roles may open issues in it.

use crate::text::{opt_text, same_text};
use std::collections::HashMap;
use vstd::prelude::*;
use vstd::std_specs::hash::*;
use vstd::string::*;

verus! {

broadcast use group_hash_axioms;

/// A place in chat that can be routed to a repository: a whole guild, or one
/// channel.
#[derive(Clone, Copy, Debug, PartialEq, Eq, Hash, Structural)]
pub enum RoutingTarget {
    Guild(u64),
    Channel(u64),
}

/// One line of the routing table: the repository `repo` takes the reports of
/// `scope`, and the roles in `allowed_role_ids` may open issues in it.
#[derive(Clone, Debug, PartialEq, Eq)]
pub struct RepoBinding {
    pub scope: RoutingTarget,
    pub repo: String,
    pub allowed_role_ids: Vec<u64>,
}

/// What a [`RepoBinding`] holds.
pub struct RepoBindingView {
    pub scope: RoutingTarget,
    pub repo: Seq<char>,
    pub allowed_role_ids: Seq<u64>,
}

impl View for RepoBinding {
    type V = RepoBindingView;

    open spec fn view(&self) -> RepoBindingView {
        RepoBindingView {
            scope: self.scope,
            repo: self.repo@,
            allowed_role_ids: self.allowed_role_ids@,
        }
    }
}

/// What a list of bindings holds.
pub open spec fn bindings_view(bindings: Seq<RepoBinding>) -> Seq<RepoBindingView> {
    bindings.map_values(|b: RepoBinding| b@)
}

/// No repository is bound twice.
pub open spec fn distinct_repos(bindings: Seq<RepoBindingView>) -> bool {
    forall|i: int, j: int|
        0 <= i < j < bindings.len() ==> (#[trigger] bindings[i]).repo != (#[trigger] bindings[j]).repo
}

/// The repository bound to exactly the scope `target`: that of the last
/// binding in the table with this scope, `None` where there is none.
pub open spec fn scope_repo(bindings: Seq<RepoBindingView>, target: RoutingTarget) -> Option<
    Seq<char>,
>
    decreases bindings.len(),
{
    if bindings.len() == 0 {
        None
    } else if bindings.last().scope == target {
        Some(bindings.last().repo)
    } else {
        scope_repo(bindings.drop_last(), target)
    }
}

/// How [`scope_repo`] reads a table that is not empty: off its last binding,
/// or else off the bindings before it.
pub proof fn lemma_scope_repo_step(bindings: Seq<RepoBindingView>, target: RoutingTarget)
    requires
        bindings.len() > 0,
    ensures
        scope_repo(bindings, target) == if bindings.last().scope == target {
            Some(bindings.last().repo)
        } else {
            scope_repo(bindings.drop_last(), target)
        },
{
}

/// Whether the binding at `i` is the last one in the table for `target`.
pub open spec fn is_last_for(bindings: Seq<RepoBindingView>, target: RoutingTarget, i: int) -> bool {
    &&& 0 <= i < bindings.len()
    &&& bindings[i].scope == target
    &&& forall|j: int| i < j < bindings.len() ==> (#[trigger] bindings[j]).scope != target
}

/// [`scope_repo`] finds nothing exactly where no binding has the scope, and
/// otherwise gives the repository of the last binding that has it.
pub proof fn lemma_scope_repo(bindings: Seq<RepoBindingView>, target: RoutingTarget)
    ensures
        scope_repo(bindings, target) is None <==> forall|i: int|
            0 <= i < bindings.len() ==> (#[trigger] bindings[i]).scope != target,
        scope_repo(bindings, target) matches Some(repo) ==> exists|i: int|
            #[trigger] is_last_for(bindings, target, i) && bindings[i].repo == repo,
    decreases bindings.len(),
{
    if bindings.len() > 0 {
        let rest = bindings.drop_last();
        let last = bindings.len() - 1;
        lemma_scope_repo(rest, target);
        if bindings.last().scope == target {
            assert(is_last_for(bindings, target, last));
        } else {
            assert forall|i: int| 0 <= i < rest.len() implies rest[i] == bindings[i] by {}
            if scope_repo(rest, target) is Some {
                let i = choose|i: int|
                    #[trigger] is_last_for(rest, target, i) && rest[i].repo == scope_repo(
                        rest,
                        target,
                    )->0;
                assert(rest[i] == bindings[i]);
                assert forall|j: int| i < j < bindings.len() implies (
                #[trigger] bindings[j]).scope != target by {
                    if j < rest.len() {
                        assert(rest[j] == bindings[j]);
                    }
                }
                assert(is_last_for(bindings, target, i));
            } else {
                assert forall|i: int| 0 <= i < bindings.len() implies (
                #[trigger] bindings[i]).scope != target by {
                    if i < rest.len() {
                        assert(rest[i] == bindings[i]);
                    }
                }
            }
        }
    }
}

/// Routing precedence: where the table binds both the channel of an event and
/// its guild, the event reports to the channel's repository.
pub proof fn lemma_channel_before_guild(
    bindings: Seq<RepoBindingView>,
    channel_id: u64,
    guild_id: u64,
    i: int,
    j: int,
)
    requires
        0 <= i < bindings.len(),
        0 <= j < bindings.len(),
        bindings[i].scope == RoutingTarget::Channel(channel_id),
        bindings[j].scope == RoutingTarget::Guild(guild_id),
    ensures
        resolve_repo(bindings, channel_id, Some(guild_id)) == scope_repo(
            bindings,
            RoutingTarget::Channel(channel_id),
        ),
        exists|k: int|
            #[trigger] is_last_for(bindings, RoutingTarget::Channel(channel_id), k)
                && resolve_repo(bindings, channel_id, Some(guild_id)) == Some(bindings[k].repo),
{
    lemma_scope_repo(bindings, RoutingTarget::Channel(channel_id));
    assert(bindings[i].scope == RoutingTarget::Channel(channel_id));
}

/// A channel without a binding of its own reports where its guild does, and
/// nowhere when the event names no guild.
pub proof fn lemma_guild_is_fallback(
    bindings: Seq<RepoBindingView>,
    channel_id: u64,
    guild_id: Option<u64>,
)
    requires
        forall|i: int|
            0 <= i < bindings.len() ==> (#[trigger] bindings[i]).scope != RoutingTarget::Channel(
                channel_id,
            ),
    ensures
        resolve_repo(bindings, channel_id, guild_id) == match guild_id {
            Some(id) => scope_repo(bindings, RoutingTarget::Guild(id)),
            None => None,
        },
{
    lemma_scope_repo(bindings, RoutingTarget::Channel(channel_id));
}

/// The repository that an event in `channel_id` reports to. The channel's own
/// binding decides; only where the channel has none, and the event names a
/// guild, the guild's binding does.
pub open spec fn resolve_repo(
    bindings: Seq<RepoBindingView>,
    channel_id: u64,
    guild_id: Option<u64>,
) -> Option<Seq<char>> {
    match scope_repo(bindings, RoutingTarget::Channel(channel_id)) {
        Some(repo) => Some(repo),
        None => match guild_id {
            Some(id) => scope_repo(bindings, RoutingTarget::Guild(id)),
            None => None,
        },
    }
}

/// Whether the role `role_id` may open issues in `repo`: the table binds
/// `repo`, and the binding lists the role.
pub open spec fn is_authorized(bindings: Seq<RepoBindingView>, repo: Seq<char>, role_id: u64) -> bool {
    exists|i: int|
        0 <= i < bindings.len() && (#[trigger] bindings[i]).repo == repo
            && bindings[i].allowed_role_ids.contains(role_id)
}

/// Whether one of `roles` may open issues in `repo`.
pub open spec fn any_authorized(bindings: Seq<RepoBindingView>, repo: Seq<char>, roles: Seq<u64>) -> bool {
    exists|k: int| 0 <= k < roles.len() && is_authorized(bindings, repo, #[trigger] roles[k])
}

/// What a [`Config`] was made from.
pub struct ConfigView {
    pub discord_token: Seq<char>,
    pub database_url: Seq<char>,
    pub github_app_id: u64,
    pub github_private_key: Seq<char>,
    pub mapping: Seq<RepoBindingView>,
}

/// Why a configuration was refused.
#[derive(Clone, Copy, Debug, PartialEq, Eq, Structural)]
pub enum ConfigError {
    /// Two bindings name the same repository.
    DuplicateRepo,
}

/// The bridge's configuration: its credentials and the routing table.
///
/// The table is kept as it was given. A reverse index from scope to repository
/// is built from it at most once, by [`Config::initialize`]; lookups give the
/// same answers before and after.
#[derive(Debug)]
pub struct Config {
    discord_token: String,
    database_url: String,
    github_app_id: u64,
    github_private_key: String,
    mapping: Vec<RepoBinding>,
    channel_index: HashMap<u64, String>,
    guild_index: HashMap<u64, String>,
    initialized: bool,
}

/// `index` answers for channels as `bindings` does.
spec fn indexes_channels(index: Map<u64, String>, bindings: Seq<RepoBindingView>) -> bool {
    forall|id: u64|
        match #[trigger] scope_repo(bindings, RoutingTarget::Channel(id)) {
            Some(repo) => index.contains_key(id) && index[id]@ == repo,
            None => !index.contains_key(id),
        }
}

/// `index` answers for guilds as `bindings` does.
spec fn indexes_guilds(index: Map<u64, String>, bindings: Seq<RepoBindingView>) -> bool {
    forall|id: u64|
        match #[trigger] scope_repo(bindings, RoutingTarget::Guild(id)) {
            Some(repo) => index.contains_key(id) && index[id]@ == repo,
            None => !index.contains_key(id),
        }
}

impl View for Config {
    type V = ConfigView;

    closed spec fn view(&self) -> ConfigView {
        ConfigView {
            discord_token: self.discord_token@,
            database_url: self.database_url@,
            github_app_id: self.github_app_id,
            github_private_key: self.github_private_key@,
            mapping: bindings_view(self.mapping@),
        }
    }
}

impl Config {
    #[verifier::type_invariant]
    spec fn inv(self) -> bool {
        &&& distinct_repos(bindings_view(self.mapping@))
        &&& self.initialized ==> {
            &&& indexes_channels(self.channel_index@, bindings_view(self.mapping@))
            &&& indexes_guilds(self.guild_index@, bindings_view(self.mapping@))
        }
    }

    /// Whether the reverse index has been built.
    pub closed spec fn is_initialized(&self) -> bool {
        self.initialized
    }

    /// Makes a configuration from its parts. The routing table is refused
    /// where it binds a repository twice, and is otherwise kept as given.
    pub fn new(
        discord_token: String,
        database_url: String,
        github_app_id: u64,
        github_private_key: String,
        mapping: Vec<RepoBinding>,
    ) -> (made: Result<Config, ConfigError>)
        ensures
            made is Ok <==> distinct_repos(bindings_view(mapping@)),
            made matches Ok(config) ==> {
                &&& config@ == (ConfigView {
                    discord_token: discord_token@,
                    database_url: database_url@,
                    github_app_id,
                    github_private_key: github_private_key@,
                    mapping: bindings_view(mapping@),
                })
                &&& !config.is_initialized()
            },
            made matches Err(e) ==> e == ConfigError::DuplicateRepo,
    {
        let ghost table = bindings_view(mapping@);
        let n = mapping.len();
        let mut i: usize = 0;
        while i < n
            invariant
                i <= n,
                n == mapping.len(),
                table == bindings_view(mapping@),
                forall|a: int, b: int|
                    0 <= a < b < i ==> (#[trigger] table[a]).repo != (#[trigger] table[b]).repo,
            decreases n - i,
        {
            let mut j: usize = 0;
            while j < i
                invariant
                    j <= i < n,
                    n == mapping.len(),
                    table == bindings_view(mapping@),
                    forall|a: int| 0 <= a < j ==> (#[trigger] table[a]).repo != table[i as int].repo,
                decreases i - j,
            {
                if same_text(mapping[j].repo.as_str(), mapping[i].repo.as_str()) {
                    assert(table[j as int].repo == table[i as int].repo);
                    return Err(ConfigError::DuplicateRepo);
                }
                j = j + 1;
            }
            i = i + 1;
        }
        Ok(
            Config {
                discord_token,
                database_url,
                github_app_id,
                github_private_key,
                mapping,
                channel_index: HashMap::new(),
                guild_index: HashMap::new(),
                initialized: false,
            },
        )
    }

    /// Builds the reverse index from scope to repository, unless it has been
    /// built before. What the configuration holds does not change, and once
    /// built the index stays.
    pub fn initialize(&mut self)
        ensures
            final(self)@ == old(self)@,
            final(self).is_initialized(),
    {
        proof {
            use_type_invariant(&*self);
        }
        if self.initialized {
            return ;
        }
        let ghost table = bindings_view(self.mapping@);
        let mut channels: HashMap<u64, String> = HashMap::new();
        let mut guilds: HashMap<u64, String> = HashMap::new();
        let n = self.mapping.len();
        let mut i: usize = 0;
        while i < n
            invariant
                i <= n,
                n == self.mapping.len(),
                table == bindings_view(self.mapping@),
                indexes_channels(channels@, table.take(i as int)),
                indexes_guilds(guilds@, table.take(i as int)),
            decreases n - i,
        {
            let binding = &self.mapping[i];
            let repo = binding.repo.clone();
            proof {
                let before = table.take(i as int);
                let after = table.take(i + 1);
                assert(after.drop_last() =~= before);
                assert(after.last() == table[i as int]);
                assert(table[i as int] == binding@);
            }
            match binding.scope {
                RoutingTarget::Channel(id) => {
                    channels.insert(id, repo);
                },
                RoutingTarget::Guild(id) => {
                    guilds.insert(id, repo);
                },
            }
            proof {
                let before = table.take(i as int);
                let after = table.take(i + 1);
                assert forall|id: u64|
                    match #[trigger] scope_repo(after, RoutingTarget::Channel(id)) {
                        Some(repo) => channels@.contains_key(id) && channels@[id]@ == repo,
                        None => !channels@.contains_key(id),
                    } by {
                    lemma_scope_repo_step(after, RoutingTarget::Channel(id));
                    assert(scope_repo(before, RoutingTarget::Channel(id)) == scope_repo(
                        after.drop_last(),
                        RoutingTarget::Channel(id),
                    ));
                }
                assert forall|id: u64|
                    match #[trigger] scope_repo(after, RoutingTarget::Guild(id)) {
                        Some(repo) => guilds@.contains_key(id) && guilds@[id]@ == repo,
                        None => !guilds@.contains_key(id),
                    } by {
                    lemma_scope_repo_step(after, RoutingTarget::Guild(id));
                    assert(scope_repo(before, RoutingTarget::Guild(id)) == scope_repo(
                        after.drop_last(),
                        RoutingTarget::Guild(id),
                    ));
                }
            }
            i = i + 1;
        }
        assert(table.take(n as int) =~= table);
        self.channel_index = channels;
        self.guild_index = guilds;
        self.initialized = true;
    }

    /// The repository bound to exactly `target`, read off the table.
    fn scan_scope(&self, target: RoutingTarget) -> (found: Option<String>)
        ensures
            opt_text(found) == scope_repo(self@.mapping, target),
    {
        let ghost table = bindings_view(self.mapping@);
        let mut i: usize = self.mapping.len();
        assert(table.take(i as int) =~= table);
        while i > 0
            invariant
                i <= self.mapping.len(),
                table == bindings_view(self.mapping@),
                scope_repo(table, target) == scope_repo(table.take(i as int), target),
            decreases i,
        {
            proof {
                let upto = table.take(i as int);
                assert(upto.drop_last() =~= table.take(i - 1));
                assert(upto.last() == table[i - 1]);
                assert(table[i - 1] == self.mapping@[i - 1]@);
            }
            i = i - 1;
            if self.mapping[i].scope == target {
                return Some(self.mapping[i].repo.clone());
            }
        }
        proof {
            assert(table.take(0).len() == 0);
        }
        None
    }

    /// The repository bound to exactly `target`.
    fn lookup_scope(&self, target: RoutingTarget) -> (found: Option<String>)
        ensures
            opt_text(found) == scope_repo(self@.mapping, target),
    {
        proof {
            use_type_invariant(self);
        }
        if self.initialized {
            let entry = match target {
                RoutingTarget::Channel(id) => self.channel_index.get(&id),
                RoutingTarget::Guild(id) => self.guild_index.get(&id),
            };
            match entry {
                Some(repo) => Some(repo.clone()),
                None => None,
            }
        } else {
            self.scan_scope(target)
        }
    }

    /// The repository that an event reports to, given its channel and, where
    /// it has one, its guild. A channel's own binding goes before its guild's.
    /// `None` says that the place is not tracked, which is no error.
    pub fn get_github_repo(&self, scope: (u64, Option<u64>)) -> (repo: Option<String>)
        ensures
            opt_text(repo) == resolve_repo(self@.mapping, scope.0, scope.1),
    {
        let (channel_id, guild_id) = scope;
        match self.lookup_scope(RoutingTarget::Channel(channel_id)) {
            Some(repo) => Some(repo),
            None => match guild_id {
                Some(id) => self.lookup_scope(RoutingTarget::Guild(id)),
                None => None,
            },
        }
    }

    /// Whether the role `role_id` may open issues in `repo`. A repository that
    /// the table does not bind lets nobody in.
    pub fn check_permission(&self, repo: &str, role_id: u64) -> (allowed: bool)
        ensures
            allowed == is_authorized(self@.mapping, repo@, role_id),
    {
        let ghost table = bindings_view(self.mapping@);
        let n = self.mapping.len();
        let mut i: usize = 0;
        while i < n
            invariant
                i <= n,
                n == self.mapping.len(),
                table == bindings_view(self.mapping@),
                forall|a: int|
                    0 <= a < i ==> !((#[trigger] table[a]).repo == repo@
                        && table[a].allowed_role_ids.contains(role_id)),
            decreases n - i,
        {
            let binding = &self.mapping[i];
            assert(table[i as int] == binding@);
            if same_text(binding.repo.as_str(), repo) && holds_role(&binding.allowed_role_ids, role_id) {
                return true;
            }
            i = i + 1;
        }
        false
    }

    /// The chat platform's credential.
    pub fn discord_token(&self) -> (token: &str)
        ensures
            token@ == self@.discord_token,
    {
        self.discord_token.as_str()
    }

    /// Where the correlation table is stored.
    pub fn database_url(&self) -> (url: &str)
        ensures
            url@ == self@.database_url,
    {
        self.database_url.as_str()
    }

    /// The number under which the tracker knows the bridge.
    pub fn github_app_id(&self) -> (id: u64)
        ensures
            id == self@.github_app_id,
    {
        self.github_app_id
    }

    /// The path of the file that holds the bridge's private key.
    pub fn github_private_key(&self) -> (path: &str)
        ensures
            path@ == self@.github_private_key,
    {
        self.github_private_key.as_str()
    }
}

/// Whether `roles` lists `role_id`.
pub fn holds_role(roles: &Vec<u64>, role_id: u64) -> (found: bool)
    ensures
        found == roles@.contains(role_id),
{
    let mut i: usize = 0;
    while i < roles.len()
        invariant
            i <= roles.len(),
            forall|a: int| 0 <= a < i ==> roles@[a] != role_id,
        decreases roles.len() - i,
    {
        if roles[i] == role_id {
            return true;
        }
        i = i + 1;
    }
    false
}

} // verus!
