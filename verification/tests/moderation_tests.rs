use reaction_jail::handler::{AddRoute, Handler, RemoveRoute};
use reaction_jail::moderation::{
    cross_add_plan, cross_removal_change, key_add_release, roles_to_strip, CrossAddPlan, RecordChange,
    RoleCheck, JAIL_VOTES,
};
use reaction_jail::reactions::{
    count_entries, find_count, reaction_key, reaction_lock, reaction_released, reaction_x,
    same_reaction, ReactionCount, ReactionKind,
};

fn unicode(s: &str) -> ReactionKind {
    ReactionKind::Unicode(s.to_string())
}

fn counted(kind: ReactionKind, count: u64) -> ReactionCount {
    ReactionCount { kind, count }
}

#[test]
fn the_bot_emoji() {
    assert!(matches!(reaction_x(), ReactionKind::Unicode(s) if s == "❌"));
    assert!(matches!(reaction_key(), ReactionKind::Unicode(s) if s == "🔑"));
    assert!(matches!(reaction_lock(), ReactionKind::Unicode(s) if s == "🔒"));
    assert!(matches!(reaction_released(), ReactionKind::Unicode(s) if s == "🗝️"));
}

#[test]
fn reaction_equality() {
    let custom = |id, name: Option<&str>| ReactionKind::Custom {
        animated: false,
        id,
        name: name.map(|n| n.to_string()),
    };
    assert!(same_reaction(&reaction_x(), &unicode("❌")));
    assert!(!same_reaction(&reaction_x(), &reaction_key()));
    assert!(same_reaction(&custom(3, Some("a")), &custom(3, Some("a"))));
    assert!(!same_reaction(&custom(3, Some("a")), &custom(3, None)));
    assert!(!same_reaction(&custom(3, None), &custom(4, None)));
    assert!(!same_reaction(&custom(3, None), &unicode("3")));
}

#[test]
fn counts_of_reactions() {
    let rs = vec![counted(unicode("👍"), 4), counted(reaction_x(), 2), counted(reaction_x(), 9)];
    assert_eq!(find_count(&rs, &reaction_x()), Some(2));
    assert_eq!(find_count(&rs, &reaction_key()), None);
    assert_eq!(count_entries(&rs, &reaction_x()), 2);
    assert_eq!(count_entries(&rs, &reaction_key()), 0);
}

#[test]
fn cross_plan() {
    assert_eq!(JAIL_VOTES, 2);
    assert_eq!(cross_add_plan(RoleCheck::Answered(false), 1), CrossAddPlan { record: true, jail: false });
    assert_eq!(cross_add_plan(RoleCheck::Answered(false), 2), CrossAddPlan { record: true, jail: true });
    assert_eq!(cross_add_plan(RoleCheck::Answered(true), 5), CrossAddPlan { record: false, jail: false });
    assert_eq!(cross_add_plan(RoleCheck::Failed, 5), CrossAddPlan { record: false, jail: false });
    assert_eq!(cross_add_plan(RoleCheck::NotInGuild, 5), CrossAddPlan { record: false, jail: false });
}

#[test]
fn key_plan() {
    assert!(key_add_release(RoleCheck::Answered(true), 2));
    assert!(!key_add_release(RoleCheck::Answered(true), 1));
    assert!(!key_add_release(RoleCheck::Answered(false), 3));
    assert!(!key_add_release(RoleCheck::Failed, 3));
    assert!(!key_add_release(RoleCheck::NotInGuild, 3));
}

#[test]
fn cross_removal_counts_key_entries() {
    let with_key = vec![counted(reaction_x(), 1), counted(reaction_key(), 7)];
    assert_eq!(cross_removal_change(&with_key), RecordChange::Update(1));
    let without_key = vec![counted(reaction_x(), 3)];
    assert_eq!(cross_removal_change(&without_key), RecordChange::Delete);
    assert_eq!(cross_removal_change(&Vec::new()), RecordChange::Delete);
}

#[test]
fn roles_lost_on_delete() {
    assert_eq!(roles_to_strip(&vec![1, 2, 3, 4], &vec![4, 2, 9]), vec![2, 4]);
    assert_eq!(roles_to_strip(&vec![1, 2], &vec![]), Vec::<u64>::new());
    assert_eq!(roles_to_strip(&vec![], &vec![1]), Vec::<u64>::new());
}

#[test]
fn routing_added_reactions() {
    let h = Handler;
    let rs = vec![counted(reaction_key(), 1), counted(reaction_x(), 3), counted(unicode("👍"), 8)];
    assert_eq!(h.route_reaction_add(&reaction_x(), &rs), AddRoute::Cross(3));
    assert_eq!(h.route_reaction_add(&reaction_key(), &rs), AddRoute::Key(1));
    assert_eq!(h.route_reaction_add(&unicode("👍"), &rs), AddRoute::Ignored);
    assert_eq!(h.route_reaction_add(&reaction_lock(), &rs), AddRoute::Missing);
}

#[test]
fn routing_removed_reactions() {
    let h = Handler;
    assert_eq!(h.route_reaction_remove(&reaction_x()), RemoveRoute::Cross);
    assert_eq!(h.route_reaction_remove(&reaction_key()), RemoveRoute::Key);
    assert_eq!(h.route_reaction_remove(&unicode("👍")), RemoveRoute::Ignored);
}
