//! The squad that the player is in, and what the player's rank in it allows.
use crate::name_map::NameMap;
use crate::text::str_eq;
use vstd::prelude::*;

verus! {

/// Ranks in a squad, from the lowest.
#[derive(Clone, Copy, PartialEq, Eq, Structural, Hash, Debug)]
pub enum SquadRank {
    Member,
    Lieutenant,
    Commander,
}

/// The number of a rank; a higher rank has a higher number.
pub open spec fn rank_number(rank: SquadRank) -> u8 {
    match rank {
        SquadRank::Member => 1,
        SquadRank::Lieutenant => 2,
        SquadRank::Commander => 3,
    }
}

impl Default for SquadRank {
    fn default() -> (r: SquadRank)
        ensures
            r == SquadRank::Member,
    {
        SquadRank::Member
    }
}

impl SquadRank {
    /// The number of this rank.
    pub fn repr(&self) -> (r: u8)
        ensures
            r == rank_number(*self),
    {
        match self {
            SquadRank::Member => 1,
            SquadRank::Lieutenant => 2,
            SquadRank::Commander => 3,
        }
    }

    /// The rank of a number.
    pub fn from_repr(n: u8) -> (r: Option<SquadRank>)
        ensures
            r is Some <==> 1 <= n <= 3,
            r matches Some(rank) ==> rank_number(rank) == n,
    {
        match n {
            1 => Some(SquadRank::Member),
            2 => Some(SquadRank::Lieutenant),
            3 => Some(SquadRank::Commander),
            _ => None,
        }
    }

    /// Whether this rank is the other one or a higher one.
    pub fn at_least(&self, other: SquadRank) -> (r: bool)
        ensures
            r == (rank_number(*self) >= rank_number(other)),
    {
        self.repr() >= other.repr()
    }

    /// The rank that the game's own data tell: whether the player commands.
    pub fn from_commander_flag(is_commander: bool) -> (r: SquadRank)
        ensures
            r == (if is_commander {
                SquadRank::Commander
            } else {
                SquadRank::Member
            }),
    {
        if is_commander {
            SquadRank::Commander
        } else {
            SquadRank::Member
        }
    }
}

/// What happened to a member of the squad.
#[derive(Clone, Copy, PartialEq, Eq, Structural, Hash, Debug)]
pub enum SquadUpdateType {
    Update,
    Joined,
    Left,
}

/// When something is done by itself.
#[derive(Clone, Copy, PartialEq, Eq, Structural, Debug)]
pub enum SquadCondition {
    Always,
    IfCommander,
    IfLieutenantOrAbove,
    Never,
}

impl Default for SquadCondition {
    fn default() -> (r: SquadCondition)
        ensures
            r == SquadCondition::Always,
    {
        SquadCondition::Always
    }
}

/// Whether a player of the given rank, where it is known, meets a condition.
pub open spec fn condition_met(condition: SquadCondition, role: Option<SquadRank>) -> bool {
    match condition {
        SquadCondition::Always => true,
        SquadCondition::Never => false,
        SquadCondition::IfCommander => role == Some(SquadRank::Commander),
        SquadCondition::IfLieutenantOrAbove => role is Some && rank_number(role->0) >= rank_number(
            SquadRank::Lieutenant,
        ),
    }
}

impl SquadCondition {
    /// The key of the text that is shown for this condition.
    pub fn label_ident(&self) -> (r: &'static str)
        ensures
            r@ == (match self {
                SquadCondition::Always => "always-do-action"@,
                SquadCondition::IfCommander => "do-action-if-commander"@,
                SquadCondition::IfLieutenantOrAbove => "do-action-if-lieutenant"@,
                SquadCondition::Never => "never-do-action"@,
            }),
    {
        match self {
            SquadCondition::Always => "always-do-action",
            SquadCondition::IfCommander => "do-action-if-commander",
            SquadCondition::IfLieutenantOrAbove => "do-action-if-lieutenant",
            SquadCondition::Never => "never-do-action",
        }
    }

    /// Whether a player of the given rank, where it is known, meets this condition.
    pub fn met_by(&self, role: Option<SquadRank>) -> (r: bool)
        ensures
            r == condition_met(*self, role),
    {
        match self {
            SquadCondition::Always => true,
            SquadCondition::Never => false,
            SquadCondition::IfCommander => match role {
                Some(rank) => rank == SquadRank::Commander,
                None => false,
            },
            SquadCondition::IfLieutenantOrAbove => match role {
                Some(rank) => rank.at_least(SquadRank::Lieutenant),
                None => false,
            },
        }
    }
}

/// What is done when the player comes near a marker set.
#[derive(Clone, Copy, PartialEq, Eq, Structural, Debug)]
pub enum MarkerAutoPlaceSettings {
    OpenWindow(SquadCondition),
    Place(SquadCondition),
    DoNothing,
}

impl Default for MarkerAutoPlaceSettings {
    fn default() -> (r: MarkerAutoPlaceSettings)
        ensures
            r == MarkerAutoPlaceSettings::DoNothing,
    {
        MarkerAutoPlaceSettings::DoNothing
    }
}

impl MarkerAutoPlaceSettings {
    /// The key of the text that is shown for this choice.
    pub fn label_ident(&self) -> (r: &'static str)
        ensures
            r@ == (match self {
                MarkerAutoPlaceSettings::OpenWindow(_) => "open-markers-window"@,
                MarkerAutoPlaceSettings::Place(_) => "place-markers-automatically"@,
                MarkerAutoPlaceSettings::DoNothing => "do-nothing"@,
            }),
    {
        match self {
            MarkerAutoPlaceSettings::OpenWindow(_) => "open-markers-window",
            MarkerAutoPlaceSettings::Place(_) => "place-markers-automatically",
            MarkerAutoPlaceSettings::DoNothing => "do-nothing",
        }
    }
}

/// What to do about a marker set that the player came near.
#[derive(Clone, Copy, PartialEq, Eq, Structural, Debug)]
pub enum AutoplaceAction {
    Nothing,
    OpenWindow,
    Place,
}

/// What to do about a marker set, given whether it is switched on, the setting where one is
/// known, and the player's rank where it is known.
pub open spec fn autoplace_action(
    enabled: bool,
    setting: Option<MarkerAutoPlaceSettings>,
    role: Option<SquadRank>,
) -> AutoplaceAction {
    match setting {
        Some(MarkerAutoPlaceSettings::OpenWindow(c)) if enabled && condition_met(c, role) =>
            AutoplaceAction::OpenWindow,
        Some(MarkerAutoPlaceSettings::Place(c)) if enabled && condition_met(c, role) =>
            AutoplaceAction::Place,
        _ => AutoplaceAction::Nothing,
    }
}

/// Decides what to do about a marker set that the player came near.
pub fn decide_autoplace(
    enabled: bool,
    setting: Option<MarkerAutoPlaceSettings>,
    role: Option<SquadRank>,
) -> (r: AutoplaceAction)
    ensures
        r == autoplace_action(enabled, setting, role),
{
    if !enabled {
        return AutoplaceAction::Nothing;
    }
    match setting {
        Some(MarkerAutoPlaceSettings::OpenWindow(c)) => if c.met_by(role) {
            AutoplaceAction::OpenWindow
        } else {
            AutoplaceAction::Nothing
        },
        Some(MarkerAutoPlaceSettings::Place(c)) => if c.met_by(role) {
            AutoplaceAction::Place
        } else {
            AutoplaceAction::Nothing
        },
        _ => AutoplaceAction::Nothing,
    }
}

/// A squad member as the live game data tell it.
pub struct GroupMember {
    pub account_name: String,
    pub is_commander: bool,
    pub is_lieutenant: bool,
}

/// Roles in a squad as the combat log tells them. `Other` covers those who are not in it.
#[derive(Clone, Copy, PartialEq, Eq, Structural, Debug)]
pub enum UserRole {
    SquadLeader,
    Lieutenant,
    Member,
    Other,
}

/// A squad member as the combat log tells it.
pub struct UserInfo {
    pub account_name: Option<String>,
    pub role: UserRole,
}

/// The rank of a member in the live game data.
pub open spec fn group_rank(member: GroupMember) -> SquadRank {
    if member.is_commander {
        SquadRank::Commander
    } else if member.is_lieutenant {
        SquadRank::Lieutenant
    } else {
        SquadRank::Member
    }
}

/// The rank that a role in the combat log amounts to.
pub open spec fn role_rank(role: UserRole) -> Option<SquadRank> {
    match role {
        UserRole::SquadLeader => Some(SquadRank::Commander),
        UserRole::Lieutenant => Some(SquadRank::Lieutenant),
        UserRole::Member => Some(SquadRank::Member),
        UserRole::Other => None,
    }
}

/// The players of a combat-log report that have a name, by name. Of two reports on one player
/// the later counts.
pub open spec fn named_users(data: Seq<UserInfo>) -> Map<Seq<char>, UserInfo>
    decreases data.len(),
{
    if data.len() == 0 {
        Map::empty()
    } else {
        match data.last().account_name {
            Some(name) => named_users(data.drop_last()).insert(name@, data.last()),
            None => named_users(data.drop_last()),
        }
    }
}

/// The squad after a change to a member, given the player's own account name.
///
/// Without the player's name or the member's, nothing changes. When the player leaves, so does
/// everybody. A change to somebody unknown is ignored.
pub open spec fn squad_after(
    squad: Map<Seq<char>, GroupMember>,
    change: SquadUpdateType,
    own_name: Option<Seq<char>>,
    member_name: Option<Seq<char>>,
    member: GroupMember,
) -> Map<Seq<char>, GroupMember> {
    match (own_name, member_name) {
        (Some(own), Some(name)) => match change {
            SquadUpdateType::Left => if name == own {
                Map::empty()
            } else {
                squad.remove(name)
            },
            SquadUpdateType::Joined => squad.insert(name, member),
            SquadUpdateType::Update => if squad.contains_key(name) {
                squad.insert(name, member)
            } else {
                squad
            },
        },
        _ => squad,
    }
}

/// The player's rank, from the best source that knows it: the live game data, then the combat
/// log, then the game's identity data.
pub open spec fn player_rank(
    live: Map<Seq<char>, GroupMember>,
    log: Map<Seq<char>, UserInfo>,
    identity: Option<SquadRank>,
    live_name: Option<Seq<char>>,
    account_name: Option<Seq<char>>,
) -> Option<SquadRank> {
    if live_name is Some && live.contains_key(live_name->0) {
        Some(group_rank(live[live_name->0]))
    } else if account_name is Some && log.contains_key(account_name->0) {
        role_rank(log[account_name->0].role)
    } else {
        identity
    }
}

/// Takes a combat-log report over as the whole squad.
pub fn collect_users(data: Vec<UserInfo>) -> (r: NameMap<UserInfo>)
    ensures
        r@ == named_users(data@),
{
    let mut squad: NameMap<UserInfo> = NameMap::new();
    let ghost all = data@;
    for user in it: data
        invariant
            it.seq() == all,
            squad@ == named_users(all.take(it.index())),
    {
        proof {
            let k = it.index();
            assert(all.take(k + 1).drop_last() =~= all.take(k));
            assert(all.take(k + 1).last() == user);
        }
        let name = user.account_name.clone();
        match name {
            Some(n) => {
                squad.insert(n, user);
            },
            None => {},
        }
    }
    assert(all.take(all.len() as int) =~= all);
    squad
}

/// Applies a change to a member of the squad.
pub fn update_squad(
    squad: &mut NameMap<GroupMember>,
    change: SquadUpdateType,
    own_name: Option<&str>,
    member_name: Option<&str>,
    member: GroupMember,
)
    ensures
        final(squad)@ == squad_after(
            old(squad)@,
            change,
            own_name.deep_view(),
            member_name.deep_view(),
            member,
        ),
{
    match (own_name, member_name) {
        (Some(own), Some(name)) => match change {
            SquadUpdateType::Left => {
                if str_eq(name, own) {
                    squad.clear();
                } else {
                    squad.remove(name);
                }
            },
            SquadUpdateType::Joined => {
                squad.insert(name.to_owned(), member);
            },
            SquadUpdateType::Update => {
                if squad.contains_key(name) {
                    squad.insert(name.to_owned(), member);
                }
            },
        },
        _ => {},
    }
}

/// Finds the player's rank.
pub fn find_rank(
    live: &NameMap<GroupMember>,
    log: &NameMap<UserInfo>,
    identity: Option<SquadRank>,
    live_name: Option<&str>,
    account_name: Option<&str>,
) -> (r: Option<SquadRank>)
    ensures
        r == player_rank(
            live@,
            log@,
            identity,
            live_name.deep_view(),
            account_name.deep_view(),
        ),
{
    if let Some(name) = live_name {
        if let Some(member) = live.get(name) {
            return Some(
                if member.is_commander {
                    SquadRank::Commander
                } else if member.is_lieutenant {
                    SquadRank::Lieutenant
                } else {
                    SquadRank::Member
                },
            );
        }
    }
    if let Some(name) = account_name {
        if let Some(user) = log.get(name) {
            return match user.role {
                UserRole::SquadLeader => Some(SquadRank::Commander),
                UserRole::Lieutenant => Some(SquadRank::Lieutenant),
                UserRole::Member => Some(SquadRank::Member),
                UserRole::Other => None,
            };
        }
    }
    identity
}

/// Whoever meets a condition meets it with a higher rank too.
pub proof fn law_rank_monotone(condition: SquadCondition, lower: SquadRank, higher: SquadRank)
    requires
        rank_number(lower) <= rank_number(higher),
        condition_met(condition, Some(lower)),
    ensures
        condition_met(condition, Some(higher)),
{
}

/// A set that is switched off, or a setting that never applies, leads to nothing, whatever the
/// rank.
pub proof fn law_autoplace_off(
    enabled: bool,
    setting: Option<MarkerAutoPlaceSettings>,
    role: Option<SquadRank>,
)
    requires
        !enabled || setting is None || setting->0 == MarkerAutoPlaceSettings::DoNothing
            || setting->0 == MarkerAutoPlaceSettings::OpenWindow(SquadCondition::Never)
            || setting->0 == MarkerAutoPlaceSettings::Place(SquadCondition::Never),
    ensures
        autoplace_action(enabled, setting, role) == AutoplaceAction::Nothing,
{
}

/// The live game data decide whenever they know the player; the others do not matter then.
pub proof fn law_live_data_decide(
    live: Map<Seq<char>, GroupMember>,
    log: Map<Seq<char>, UserInfo>,
    other_log: Map<Seq<char>, UserInfo>,
    identity: Option<SquadRank>,
    other_identity: Option<SquadRank>,
    live_name: Seq<char>,
    account_name: Option<Seq<char>>,
)
    requires
        live.contains_key(live_name),
    ensures
        player_rank(live, log, identity, Some(live_name), account_name) == player_rank(
            live,
            other_log,
            other_identity,
            Some(live_name),
            account_name,
        ),
{
}

/// Who joins and then leaves is not in the squad, and the others are as before, unless it is the
/// player: then nobody is left.
pub proof fn law_join_then_leave(
    squad: Map<Seq<char>, GroupMember>,
    own: Seq<char>,
    name: Seq<char>,
    member: GroupMember,
)
    ensures
        ({
            let joined = squad_after(squad, SquadUpdateType::Joined, Some(own), Some(name), member);
            let after = squad_after(joined, SquadUpdateType::Left, Some(own), Some(name), member);
            &&& joined.contains_key(name) && joined[name] == member
            &&& after == if name == own {
                Map::<Seq<char>, GroupMember>::empty()
            } else {
                squad.remove(name)
            }
        }),
{
    let joined = squad_after(squad, SquadUpdateType::Joined, Some(own), Some(name), member);
    assert(joined.remove(name) =~= squad.remove(name));
}

} // verus!
