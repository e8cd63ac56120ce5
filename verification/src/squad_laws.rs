//! What holds of ranks in a squad, and of what they allow.
#[allow(unused_imports)]
use crate::squad::{
    autoplace_action, condition_met, group_rank, named_users, player_rank, rank_number, role_rank,
    squad_after, AutoplaceAction, GroupMember, MarkerAutoPlaceSettings, SquadCondition, SquadRank,
    SquadUpdateType, UserInfo, UserRole,
};
use vstd::prelude::*;

verus! {

/// The window opens under a condition just where the markers would be placed under it: the two
/// settings differ in what is done, not in when.
pub proof fn law_window_opens_where_markers_would_be_placed(
    enabled: bool,
    condition: SquadCondition,
    role: Option<SquadRank>,
)
    ensures
        ({
            let window = autoplace_action(
                enabled,
                Some(MarkerAutoPlaceSettings::OpenWindow(condition)),
                role,
            );
            let place = autoplace_action(
                enabled,
                Some(MarkerAutoPlaceSettings::Place(condition)),
                role,
            );
            &&& window == AutoplaceAction::OpenWindow <==> place == AutoplaceAction::Place
            &&& window != AutoplaceAction::Place
            &&& place != AutoplaceAction::OpenWindow
        }),
{
}

/// The ranks for which something is done under a condition: every one and an unknown one, the
/// commander, the commander and the lieutenants, or none. For both settings these are the same.
pub proof fn law_something_is_done_for(
    condition: SquadCondition,
    setting: MarkerAutoPlaceSettings,
    role: Option<SquadRank>,
)
    requires
        setting == MarkerAutoPlaceSettings::OpenWindow(condition) || setting
            == MarkerAutoPlaceSettings::Place(condition),
    ensures
        ({
            let done = autoplace_action(true, Some(setting), role) != AutoplaceAction::Nothing;
            &&& condition == SquadCondition::Always ==> done
            &&& condition == SquadCondition::Never ==> !done
            &&& condition == SquadCondition::IfCommander ==> (done <==> role == Some(
                SquadRank::Commander,
            ))
            &&& condition == SquadCondition::IfLieutenantOrAbove ==> (done <==> role == Some(
                SquadRank::Lieutenant,
            ) || role == Some(SquadRank::Commander))
        }),
{
}

/// Nothing is done about a set that is switched off, nor without a setting, nor under the one that
/// does nothing.
pub proof fn law_nothing_is_done_unasked(
    enabled: bool,
    setting: Option<MarkerAutoPlaceSettings>,
    role: Option<SquadRank>,
)
    requires
        autoplace_action(enabled, setting, role) != AutoplaceAction::Nothing,
    ensures
        enabled,
        setting is Some,
        setting->0 != MarkerAutoPlaceSettings::DoNothing,
{
}

/// Whether a condition means a rank.
pub open spec fn is_meant(condition: SquadCondition, role: Option<SquadRank>) -> bool {
    match condition {
        SquadCondition::Always => true,
        SquadCondition::Never => false,
        SquadCondition::IfCommander => role == Some(SquadRank::Commander),
        SquadCondition::IfLieutenantOrAbove => role == Some(SquadRank::Lieutenant) || role == Some(
            SquadRank::Commander,
        ),
    }
}

/// A condition is met by the ranks that it names, and an unknown rank meets only the one that
/// always holds.
pub proof fn law_conditions(condition: SquadCondition, role: Option<SquadRank>)
    ensures
        condition_met(condition, role) <==> is_meant(condition, role),
        role is None && condition_met(condition, role) ==> condition == SquadCondition::Always,
{
}

/// Ranks are numbered from one, the commander's is the highest, and no two share a number.
pub proof fn law_ranks_are_ordered(a: SquadRank, b: SquadRank)
    ensures
        1 <= rank_number(a) <= 3,
        rank_number(a) == rank_number(b) ==> a == b,
        rank_number(SquadRank::Member) < rank_number(SquadRank::Lieutenant) < rank_number(
            SquadRank::Commander,
        ),
{
}

/// In the live game data, who commands is the commander whatever else they are; who does not is a
/// lieutenant where they are marked as one, and else a member.
pub proof fn law_live_rank(member: GroupMember)
    ensures
        group_rank(member) == SquadRank::Commander <==> member.is_commander,
        group_rank(member) == SquadRank::Lieutenant <==> !member.is_commander
            && member.is_lieutenant,
        group_rank(member) == SquadRank::Member <==> !member.is_commander && !member.is_lieutenant,
{
}

/// In the combat log, the leader is the commander, and who is not in the squad has no rank.
pub proof fn law_log_rank(role: UserRole)
    ensures
        role_rank(role) == Some(SquadRank::Commander) <==> role == UserRole::SquadLeader,
        role_rank(role) == Some(SquadRank::Lieutenant) <==> role == UserRole::Lieutenant,
        role_rank(role) == Some(SquadRank::Member) <==> role == UserRole::Member,
        role_rank(role) is None <==> role == UserRole::Other,
{
}

/// The player's rank is told by the first source that knows the player: the live game data, where
/// they know the player's name there; else the combat log, even where it says that the player has
/// no rank; else the game's identity data.
pub proof fn law_first_source_tells_the_rank(
    live: Map<Seq<char>, GroupMember>,
    log: Map<Seq<char>, UserInfo>,
    identity: Option<SquadRank>,
    live_name: Option<Seq<char>>,
    account_name: Option<Seq<char>>,
)
    ensures
        ({
            let rank = player_rank(live, log, identity, live_name, account_name);
            let in_live = exists|n: Seq<char>| live_name == Some(n) && #[trigger] live.contains_key(n);
            let in_log = exists|n: Seq<char>| account_name == Some(n) && #[trigger] log.contains_key(n);
            &&& in_live ==> rank is Some && (rank->0 == SquadRank::Commander
                <==> live[live_name->0].is_commander) && (rank->0 == SquadRank::Lieutenant
                <==> !live[live_name->0].is_commander && live[live_name->0].is_lieutenant)
            &&& !in_live && in_log ==> (match log[account_name->0].role {
                UserRole::SquadLeader => rank == Some(SquadRank::Commander),
                UserRole::Lieutenant => rank == Some(SquadRank::Lieutenant),
                UserRole::Member => rank == Some(SquadRank::Member),
                UserRole::Other => rank is None,
            })
            &&& !in_live && !in_log ==> rank == identity
        }),
{
    if live_name is Some && live.contains_key(live_name->0) {
        assert(live_name == Some(live_name->0));
    }
    if account_name is Some && log.contains_key(account_name->0) {
        assert(account_name == Some(account_name->0));
    }
}

/// A change to a member touches no other member, unless it is the player who leaves: then nobody is
/// left.
pub proof fn law_changes_touch_one_member(
    squad: Map<Seq<char>, GroupMember>,
    change: SquadUpdateType,
    own: Seq<char>,
    name: Seq<char>,
    member: GroupMember,
    other: Seq<char>,
)
    ensures
        ({
            let after = squad_after(squad, change, Some(own), Some(name), member);
            if change == SquadUpdateType::Left && name == own {
                !after.contains_key(other)
            } else if other != name {
                &&& after.contains_key(other) == squad.contains_key(other)
                &&& squad.contains_key(other) ==> after[other] == squad[other]
            } else {
                &&& after.contains_key(name) <==> (match change {
                    SquadUpdateType::Joined => true,
                    SquadUpdateType::Left => false,
                    SquadUpdateType::Update => squad.contains_key(name),
                })
                &&& after.contains_key(name) ==> after[name] == member
            }
        }),
{
}

/// A change is ignored where the player's name or the member's is not known.
pub proof fn law_nameless_changes_are_ignored(
    squad: Map<Seq<char>, GroupMember>,
    change: SquadUpdateType,
    own_name: Option<Seq<char>>,
    member_name: Option<Seq<char>>,
    member: GroupMember,
)
    requires
        own_name is None || member_name is None,
    ensures
        squad_after(squad, change, own_name, member_name, member) == squad,
{
}

/// Whether the last report on a name is at a place of a combat-log report.
pub open spec fn is_last_report(data: Seq<UserInfo>, name: Seq<char>, i: int) -> bool {
    &&& 0 <= i < data.len()
    &&& data[i].account_name is Some && data[i].account_name->0@ == name
    &&& forall|j: int|
        i < j < data.len() ==> !((#[trigger] data[j]).account_name is Some
            && data[j].account_name->0@ == name)
}

/// A combat-log report makes up the whole squad: a name is in it just where it is reported on, with
/// what the last report on it says.
pub proof fn law_reports_make_the_squad(data: Seq<UserInfo>, name: Seq<char>)
    ensures
        named_users(data).contains_key(name) <==> exists|i: int| #[trigger]
            is_last_report(data, name, i),
        forall|i: int| #[trigger]
            is_last_report(data, name, i) ==> named_users(data)[name] == data[i],
    decreases data.len(),
{
    if data.len() > 0 {
        let before = data.drop_last();
        law_reports_make_the_squad(before, name);
        let last = data.len() - 1;
        let on_name = data.last().account_name is Some && data.last().account_name->0@ == name;
        if on_name {
            assert(is_last_report(data, name, last));
            assert forall|i: int| #[trigger] is_last_report(data, name, i) implies named_users(
                data,
            )[name] == data[i] by {
                if i != last {
                    assert(!(data[last].account_name is Some && data[last].account_name->0@
                        == name));
                }
            }
        } else {
            assert forall|i: int| #[trigger]
                is_last_report(data, name, i) <==> is_last_report(before, name, i) by {
                if is_last_report(data, name, i) {
                    assert(i != last);
                    assert forall|j: int| i < j < before.len() implies !((
                    #[trigger] before[j]).account_name is Some && before[j].account_name->0@
                        == name) by {
                        assert(before[j] == data[j]);
                    }
                }
                if is_last_report(before, name, i) {
                    assert(before[i] == data[i]);
                    assert forall|j: int| i < j < data.len() implies !((
                    #[trigger] data[j]).account_name is Some && data[j].account_name->0@ == name) by {
                        if j < before.len() {
                            assert(before[j] == data[j]);
                        }
                    }
                }
            }
            if named_users(before).contains_key(name) {
                let i = choose|i: int| #[trigger] is_last_report(before, name, i);
                assert(is_last_report(data, name, i));
            }
            if exists|i: int| #[trigger] is_last_report(data, name, i) {
                let i = choose|i: int| #[trigger] is_last_report(data, name, i);
                assert(is_last_report(before, name, i));
            }
            assert forall|i: int| #[trigger] is_last_report(data, name, i) implies named_users(
                data,
            )[name] == data[i] by {
                assert(is_last_report(before, name, i));
                assert(named_users(before).contains_key(name));
                assert(before[i] == data[i]);
            }
        }
    }
}

} // verus!
