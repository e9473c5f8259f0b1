use nestera::{NesteraContract, SavingsError};

fn setup() -> NesteraContract {
    NesteraContract::new()
}

fn create(
    c: &mut NesteraContract,
    creator: u64,
    title: &str,
    description: &str,
    target: i128,
    contribution_amount: i128,
    end_time: u64,
) -> u64 {
    c.create_group_save(
        creator,
        String::from(title),
        String::from(description),
        String::from("savings"),
        target,
        0,
        contribution_amount,
        true,
        1,
        end_time,
    )
    .unwrap()
}

#[test]
fn test_successful_break_group_save() {
    let mut client = setup();
    let (creator, member1, member2) = (1u64, 2u64, 3u64);
    client.initialize_user(creator).unwrap();
    client.initialize_user(member1).unwrap();
    client.initialize_user(member2).unwrap();
    let group_id = create(&mut client, creator, "Test Group", "Test Description", 10000, 100, 1000);
    client.join_group_save(member1, group_id).unwrap();
    client.join_group_save(member2, group_id).unwrap();
    client.contribute_to_group_save(creator, group_id, 500, 10).unwrap();
    client.contribute_to_group_save(member1, group_id, 300, 11).unwrap();
    client.contribute_to_group_save(member2, group_id, 200, 12).unwrap();
    assert_eq!(client.break_group_save(member1, group_id, 13), Ok(()));
    let plan = client.get_savings_plan(group_id).unwrap();
    assert_eq!(plan.balance, 700);
    assert_eq!(plan.last_withdraw, 13);
    assert!(!client.is_group_member(member1, group_id));
    assert_eq!(client.get_user(member1).unwrap().total_balance, 0);
}

#[test]
fn test_break_group_updates_member_count() {
    let mut client = setup();
    let (creator, member1, member2) = (1u64, 2u64, 3u64);
    client.initialize_user(creator).unwrap();
    client.initialize_user(member1).unwrap();
    client.initialize_user(member2).unwrap();
    let group_id = create(&mut client, creator, "Test Group", "Description", 5000, 100, 500);
    client.join_group_save(member1, group_id).unwrap();
    client.join_group_save(member2, group_id).unwrap();
    assert_eq!(client.break_group_save(member1, group_id, 2), Ok(()));
    assert!(client.is_group_member(creator, group_id));
    assert!(!client.is_group_member(member1, group_id));
    assert!(client.is_group_member(member2, group_id));
}

#[test]
fn test_break_group_updates_user_groups_list() {
    let mut client = setup();
    let user = 7u64;
    client.initialize_user(user).unwrap();
    let group1_id = create(&mut client, user, "Group 1", "Description 1", 5000, 100, 500);
    let group2_id = create(&mut client, user, "Group 2", "Description 2", 3000, 50, 400);
    assert_eq!(client.break_group_save(user, group1_id, 2), Ok(()));
    assert_eq!(client.contribute_to_group_save(user, group2_id, 100, 3), Ok(()));
    assert!(!client.is_group_member(user, group1_id));
    assert!(client.is_group_member(user, group2_id));
}

#[test]
fn test_break_group_refunds_contribution() {
    let mut client = setup();
    let (creator, member) = (1u64, 2u64);
    client.initialize_user(creator).unwrap();
    client.initialize_user(member).unwrap();
    let group_id = create(&mut client, creator, "Test Group", "Description", 5000, 100, 500);
    client.join_group_save(member, group_id).unwrap();
    client.contribute_to_group_save(member, group_id, 500, 2).unwrap();
    assert_eq!(client.get_user(member).unwrap().total_balance, 500);
    assert_eq!(client.break_group_save(member, group_id, 3), Ok(()));
    assert_eq!(client.get_savings_plan(group_id).unwrap().balance, 0);
    assert_eq!(client.get_user(member).unwrap().total_balance, 0);
}

#[test]
fn test_break_group_with_zero_contribution() {
    let mut client = setup();
    let (creator, member) = (1u64, 2u64);
    client.initialize_user(creator).unwrap();
    client.initialize_user(member).unwrap();
    let group_id = create(&mut client, creator, "Test Group", "Description", 5000, 100, 500);
    client.join_group_save(member, group_id).unwrap();
    assert_eq!(client.get_member_contribution(group_id, member), Some(0));
    assert_eq!(client.break_group_save(member, group_id, 2), Ok(()));
    assert_eq!(client.get_savings_plan(group_id).unwrap().balance, 0);
    assert_eq!(client.get_user(member).unwrap().total_balance, 0);
}

#[test]
fn test_error_user_not_member() {
    let mut client = setup();
    let (creator, non_member) = (1u64, 2u64);
    client.initialize_user(creator).unwrap();
    client.initialize_user(non_member).unwrap();
    let group_id = create(&mut client, creator, "Test Group", "Description", 5000, 100, 500);
    let result = client.break_group_save(non_member, group_id, 2);
    assert_eq!(result.unwrap_err(), SavingsError::NotGroupMember);
}

#[test]
fn test_error_group_completed() {
    let mut client = setup();
    let creator = 1u64;
    client.initialize_user(creator).unwrap();
    let group_id = create(&mut client, creator, "Test Group", "Description", 100, 10, 500);
    client.contribute_to_group_save(creator, group_id, 100, 2).unwrap();
    assert!(client.get_savings_plan(group_id).unwrap().is_completed);
    let result = client.break_group_save(creator, group_id, 3);
    assert_eq!(result.unwrap_err(), SavingsError::PlanCompleted);
}

#[test]
fn test_error_group_not_found() {
    let mut client = setup();
    let user = 1u64;
    client.initialize_user(user).unwrap();
    let result = client.break_group_save(user, 999, 2);
    assert_eq!(result.unwrap_err(), SavingsError::PlanNotFound);
}

#[test]
fn test_error_user_not_found() {
    let mut client = setup();
    let (creator, non_existent_user) = (1u64, 2u64);
    client.initialize_user(creator).unwrap();
    let group_id = create(&mut client, creator, "Test Group", "Description", 5000, 100, 500);
    let result = client.break_group_save(non_existent_user, group_id, 2);
    assert_eq!(result.unwrap_err(), SavingsError::UserNotFound);
}
