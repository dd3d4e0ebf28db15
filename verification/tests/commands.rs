use voice_recorder::commands::{
    command_named, find_user_voice_channel, join, leave, Channel, Command, JoinPlan, LeavePlan,
};

fn channel(id: u64, voice: bool, members: &[u64]) -> Channel {
    Channel { id, voice, members: members.to_vec() }
}

#[test]
fn commands_go_by_their_names() {
    assert_eq!(command_named("join"), Command::Join);
    assert_eq!(command_named("leave"), Command::Leave);
    assert_eq!(command_named("dump"), Command::Dump);
    assert_eq!(command_named("clear"), Command::Clear);
}

#[test]
fn other_names_are_not_implemented() {
    assert_eq!(command_named(""), Command::NotImplemented);
    assert_eq!(command_named("Join"), Command::NotImplemented);
    assert_eq!(command_named("join "), Command::NotImplemented);
    assert_eq!(command_named("dumps"), Command::NotImplemented);
}

#[test]
fn join_needs_the_member_in_a_voice_channel() {
    assert_eq!(join(None, None), JoinPlan::MemberNotInVoice);
    assert_eq!(join(None, Some(4)), JoinPlan::MemberNotInVoice);
}

#[test]
fn join_is_refused_where_the_service_is_already() {
    assert_eq!(join(Some(4), Some(4)), JoinPlan::AlreadyThere);
}

#[test]
fn join_goes_to_the_channel_of_the_member() {
    assert_eq!(join(Some(4), None), JoinPlan::Connect(4));
    assert_eq!(join(Some(4), Some(5)), JoinPlan::Connect(4));
}

#[test]
fn leave_needs_the_service_in_voice() {
    assert_eq!(leave(None, None), LeavePlan::NotInVoice);
    assert_eq!(leave(None, Some(4)), LeavePlan::NotInVoice);
}

#[test]
fn leave_is_refused_to_a_member_elsewhere() {
    assert_eq!(leave(Some(Some(4)), None), LeavePlan::MemberElsewhere);
    assert_eq!(leave(Some(Some(4)), Some(5)), LeavePlan::MemberElsewhere);
    assert_eq!(leave(Some(None), None), LeavePlan::MemberElsewhere);
    assert_eq!(leave(Some(None), Some(5)), LeavePlan::MemberElsewhere);
}

#[test]
fn leave_is_granted_to_a_member_in_the_same_channel() {
    assert_eq!(leave(Some(Some(4)), Some(4)), LeavePlan::Disconnect(4));
}

#[test]
fn member_is_found_in_the_first_voice_channel_that_has_them() {
    let channels = vec![
        channel(1, false, &[7, 8]),
        channel(2, true, &[8]),
        channel(3, true, &[9, 7]),
        channel(4, true, &[7]),
    ];
    assert_eq!(find_user_voice_channel(&channels, 7), Some(3));
    assert_eq!(find_user_voice_channel(&channels, 8), Some(2));
    assert_eq!(find_user_voice_channel(&channels, 9), Some(3));
}

#[test]
fn member_of_no_voice_channel_is_not_found() {
    let channels = vec![channel(1, false, &[7]), channel(2, true, &[])];
    assert_eq!(find_user_voice_channel(&channels, 7), None);
    assert_eq!(find_user_voice_channel(&channels, 8), None);
    assert_eq!(find_user_voice_channel(&Vec::new(), 7), None);
}
