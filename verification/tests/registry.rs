use digital_identity::address::Address;
use digital_identity::contract::DigitalIdentityContract;
use digital_identity::env::{ContractError, Env};
use digital_identity::events::{Event, EventData, EventType};
use digital_identity::records::IdentityData;

fn text(s: &str) -> String {
    String::from(s)
}

fn env_with_admin(admin: &Address) -> Env {
    let mut env = Env::new(1_000);
    env.authorized = vec![admin.clone()];
    assert_eq!(DigitalIdentityContract::initialize(&mut env, admin.clone()), Ok(()));
    env
}

fn register(env: &mut Env, id: &str, owner: &Address) -> Result<bool, ContractError> {
    DigitalIdentityContract::register_identity(
        env,
        text(id),
        owner.clone(),
        text("Test User"),
        text("test@example.com"),
        vec![1, 2, 3, 4, 5, 6, 7, 8],
    )
}

#[test]
fn test_basic_functionality() {
    let mut env = Env::new(0);

    let admin = Address::from_str("GADMIN");
    let user = Address::from_str("GUSER");
    let other_user = Address::from_str("GOTHER");
    // Every principal concerned has proved its identity.
    env.authorized = vec![admin.clone(), user.clone(), other_user.clone()];

    assert_eq!(DigitalIdentityContract::initialize(&mut env, admin.clone()), Ok(()));

    assert_eq!(DigitalIdentityContract::get_admin(&env), Ok(admin.clone()));
    assert_eq!(DigitalIdentityContract::get_total_identities(&env), 0);

    let identity_id = text("test_user_123");
    let full_name = text("Test User");
    let email = text("test@example.com");
    let document_hash: Vec<u8> = vec![1, 2, 3, 4, 5, 6, 7, 8];

    let register_result = DigitalIdentityContract::register_identity(
        &mut env,
        identity_id.clone(),
        user.clone(),
        full_name.clone(),
        email.clone(),
        document_hash.clone(),
    );

    assert_eq!(register_result, Ok(true));
    assert_eq!(DigitalIdentityContract::get_total_identities(&env), 1);

    let identity_data =
        DigitalIdentityContract::get_identity(&env, identity_id.clone(), user.clone()).unwrap();

    assert!(identity_data.is_some());
    let data = identity_data.unwrap();
    assert_eq!(data.owner, user);
    assert_eq!(data.full_name, full_name);
    assert_eq!(data.verification_level, 0);
    assert!(data.is_active);

    let verify_result = DigitalIdentityContract::verify_identity(&mut env, identity_id.clone(), 2);
    assert_eq!(verify_result, Ok(true));

    let updated_identity =
        DigitalIdentityContract::get_identity(&env, identity_id.clone(), user.clone())
            .unwrap()
            .unwrap();
    assert_eq!(updated_identity.verification_level, 2);

    let no_access =
        DigitalIdentityContract::get_identity(&env, identity_id.clone(), other_user.clone())
            .unwrap();
    assert!(no_access.is_none());

    let grant_result = DigitalIdentityContract::grant_access(
        &mut env,
        identity_id.clone(),
        other_user.clone(),
        1,
        3600,
    );
    assert_eq!(grant_result, Ok(true));

    let with_access =
        DigitalIdentityContract::get_identity(&env, identity_id.clone(), other_user.clone())
            .unwrap();
    assert!(with_access.is_some());

    let permission =
        DigitalIdentityContract::check_access(&env, identity_id.clone(), other_user.clone());
    assert!(permission.is_some());
    assert_eq!(permission.unwrap().permission_type, 1);
}

#[test]
fn registration_reads_back_as_owner() {
    let owner = Address::from_str("GOWNER");
    let mut env = Env::new(42);
    env.authorized = vec![owner.clone()];
    assert_eq!(
        DigitalIdentityContract::register_identity(
            &mut env,
            text("alice"),
            owner.clone(),
            text("Alice"),
            text("alice@example.com"),
            vec![9, 9],
        ),
        Ok(true)
    );
    let read = DigitalIdentityContract::get_identity(&env, text("alice"), owner.clone());
    assert_eq!(
        read,
        Ok(Some(IdentityData {
            owner: owner.clone(),
            full_name: text("Alice"),
            email: text("alice@example.com"),
            document_hash: vec![9, 9],
            verification_level: 0,
            is_active: true,
            created_at: 42,
            updated_at: 42,
        }))
    );
}

#[test]
fn registration_needs_proof_from_owner() {
    let owner = Address::from_str("GOWNER");
    let mut env = Env::new(42);
    assert_eq!(register(&mut env, "alice", &owner), Err(ContractError::AuthorizationFailure));
    assert_eq!(DigitalIdentityContract::get_total_identities(&env), 0);
    assert!(env.events.is_empty());
    env.authorized = vec![owner.clone()];
    assert_eq!(DigitalIdentityContract::get_identity(&env, text("alice"), owner.clone()), Ok(None));
}

#[test]
fn registering_the_same_id_twice_fails() {
    let first = Address::from_str("GFIRST");
    let second = Address::from_str("GSECOND");
    let mut env = Env::new(10);
    env.authorized = vec![first.clone(), second.clone()];
    assert_eq!(register(&mut env, "u1", &first), Ok(true));
    let before = DigitalIdentityContract::get_identity(&env, text("u1"), first.clone());
    env.timestamp = 20;
    let again = DigitalIdentityContract::register_identity(
        &mut env,
        text("u1"),
        second.clone(),
        text("Somebody Else"),
        text("else@example.com"),
        vec![],
    );
    assert_eq!(again, Ok(false));
    assert_eq!(DigitalIdentityContract::get_identity(&env, text("u1"), first.clone()), before);
    assert_eq!(DigitalIdentityContract::get_total_identities(&env), 1);
    assert_eq!(
        DigitalIdentityContract::get_identities_by_owner(&env, second.clone()),
        Ok(Vec::<String>::new())
    );
    assert_eq!(env.events.len(), 1);
}

#[test]
fn registration_emits_identity_created() {
    let owner = Address::from_str("GOWNER");
    let mut env = Env::new(10);
    env.authorized = vec![owner.clone()];
    assert_eq!(register(&mut env, "u1", &owner), Ok(true));
    assert_eq!(
        env.events,
        vec![Event {
            event_type: EventType::IdentityCreated,
            identity_id: text("u1"),
            data: EventData::Principal(owner.clone()),
        }]
    );
}

#[test]
fn owner_index_keeps_creation_order() {
    let owner = Address::from_str("GOWNER");
    let other = Address::from_str("GOTHER");
    let mut env = Env::new(10);
    env.authorized = vec![owner.clone(), other.clone()];
    assert_eq!(register(&mut env, "b", &owner), Ok(true));
    assert_eq!(register(&mut env, "x", &other), Ok(true));
    assert_eq!(register(&mut env, "a", &owner), Ok(true));
    assert_eq!(register(&mut env, "c", &owner), Ok(true));
    assert_eq!(
        DigitalIdentityContract::get_identities_by_owner(&env, owner.clone()),
        Ok(vec![text("b"), text("a"), text("c")])
    );
    assert_eq!(
        DigitalIdentityContract::get_identities_by_owner(&env, other.clone()),
        Ok(vec![text("x")])
    );
    assert_eq!(DigitalIdentityContract::get_total_identities(&env), 4);
}

#[test]
fn owner_index_needs_proof_from_owner() {
    let owner = Address::from_str("GOWNER");
    let mut env = Env::new(10);
    env.authorized = vec![owner.clone()];
    assert_eq!(register(&mut env, "b", &owner), Ok(true));
    env.authorized = vec![];
    assert_eq!(
        DigitalIdentityContract::get_identities_by_owner(&env, owner.clone()),
        Err(ContractError::AuthorizationFailure)
    );
}

#[test]
fn update_overwrites_mutable_fields_only() {
    let admin = Address::from_str("GADMIN");
    let owner = Address::from_str("GOWNER");
    let mut env = env_with_admin(&admin);
    env.authorized = vec![admin.clone(), owner.clone()];
    assert_eq!(register(&mut env, "u1", &owner), Ok(true));
    assert_eq!(DigitalIdentityContract::verify_identity(&mut env, text("u1"), 3), Ok(true));
    env.timestamp = 2_000;
    assert_eq!(
        DigitalIdentityContract::update_identity(
            &mut env,
            text("u1"),
            text("New Name"),
            text("new@example.com"),
            vec![7],
        ),
        Ok(true)
    );
    assert_eq!(
        DigitalIdentityContract::get_identity(&env, text("u1"), owner.clone()),
        Ok(Some(IdentityData {
            owner: owner.clone(),
            full_name: text("New Name"),
            email: text("new@example.com"),
            document_hash: vec![7],
            verification_level: 3,
            is_active: true,
            created_at: 1_000,
            updated_at: 2_000,
        }))
    );
    assert_eq!(
        env.events.last(),
        Some(&Event {
            event_type: EventType::IdentityUpdated,
            identity_id: text("u1"),
            data: EventData::Principal(owner.clone()),
        })
    );
    assert_eq!(
        DigitalIdentityContract::get_identities_by_owner(&env, owner.clone()),
        Ok(vec![text("u1")])
    );
}

#[test]
fn update_of_missing_identity_returns_false() {
    let mut env = Env::new(10);
    assert_eq!(
        DigitalIdentityContract::update_identity(&mut env, text("nobody"), text("n"), text("e"), vec![]),
        Ok(false)
    );
    assert!(env.events.is_empty());
}

#[test]
fn update_needs_proof_from_stored_owner() {
    let owner = Address::from_str("GOWNER");
    let intruder = Address::from_str("GINTRUDER");
    let mut env = Env::new(10);
    env.authorized = vec![owner.clone()];
    assert_eq!(register(&mut env, "u1", &owner), Ok(true));
    env.authorized = vec![intruder.clone()];
    assert_eq!(
        DigitalIdentityContract::update_identity(&mut env, text("u1"), text("n"), text("e"), vec![]),
        Err(ContractError::AuthorizationFailure)
    );
    env.authorized = vec![owner.clone()];
    let data = DigitalIdentityContract::get_identity(&env, text("u1"), owner.clone())
        .unwrap()
        .unwrap();
    assert_eq!(data.full_name, text("Test User"));
    assert_eq!(data.updated_at, 10);
}

#[test]
fn verification_by_non_admin_fails() {
    let admin = Address::from_str("GADMIN");
    let owner = Address::from_str("GOWNER");
    let mut env = env_with_admin(&admin);
    env.authorized = vec![owner.clone()];
    assert_eq!(register(&mut env, "u1", &owner), Ok(true));
    env.timestamp = 1_500;
    assert_eq!(
        DigitalIdentityContract::verify_identity(&mut env, text("u1"), 2),
        Err(ContractError::AuthorizationFailure)
    );
    let data = DigitalIdentityContract::get_identity(&env, text("u1"), owner.clone())
        .unwrap()
        .unwrap();
    assert_eq!(data.verification_level, 0);
    assert_eq!(data.updated_at, 1_000);
}

#[test]
fn verification_by_admin_updates_level_and_time() {
    let admin = Address::from_str("GADMIN");
    let owner = Address::from_str("GOWNER");
    let mut env = env_with_admin(&admin);
    env.authorized = vec![owner.clone()];
    assert_eq!(register(&mut env, "u1", &owner), Ok(true));
    env.authorized = vec![admin.clone()];
    env.timestamp = 1_500;
    assert_eq!(DigitalIdentityContract::verify_identity(&mut env, text("u1"), 2), Ok(true));
    env.authorized = vec![owner.clone()];
    let data = DigitalIdentityContract::get_identity(&env, text("u1"), owner.clone())
        .unwrap()
        .unwrap();
    assert_eq!(data.verification_level, 2);
    assert_eq!(data.created_at, 1_000);
    assert_eq!(data.updated_at, 1_500);
    assert_eq!(
        env.events.last(),
        Some(&Event {
            event_type: EventType::VerificationLevelChanged,
            identity_id: text("u1"),
            data: EventData::Levels(0, 2),
        })
    );
}

#[test]
fn verification_level_out_of_range_is_refused() {
    let admin = Address::from_str("GADMIN");
    let owner = Address::from_str("GOWNER");
    let mut env = env_with_admin(&admin);
    env.authorized = vec![admin.clone(), owner.clone()];
    assert_eq!(register(&mut env, "u1", &owner), Ok(true));
    assert_eq!(DigitalIdentityContract::verify_identity(&mut env, text("u1"), 1), Ok(true));
    env.timestamp = 1_500;
    let before = DigitalIdentityContract::get_identity(&env, text("u1"), owner.clone());
    let events_before = env.events.len();
    assert_eq!(DigitalIdentityContract::verify_identity(&mut env, text("u1"), 4), Ok(false));
    assert_eq!(DigitalIdentityContract::get_identity(&env, text("u1"), owner.clone()), before);
    assert_eq!(env.events.len(), events_before);
    assert_eq!(DigitalIdentityContract::verify_identity(&mut env, text("u1"), 3), Ok(true));
    assert_eq!(DigitalIdentityContract::verify_identity(&mut env, text("u1"), 0), Ok(true));
}

#[test]
fn verification_of_missing_identity_returns_false() {
    let admin = Address::from_str("GADMIN");
    let mut env = env_with_admin(&admin);
    assert_eq!(DigitalIdentityContract::verify_identity(&mut env, text("nobody"), 1), Ok(false));
}

#[test]
fn verification_without_admin_is_not_initialized() {
    let owner = Address::from_str("GOWNER");
    let mut env = Env::new(10);
    env.authorized = vec![owner.clone()];
    assert_eq!(register(&mut env, "u1", &owner), Ok(true));
    assert_eq!(
        DigitalIdentityContract::verify_identity(&mut env, text("u1"), 1),
        Err(ContractError::NotInitialized)
    );
    assert_eq!(DigitalIdentityContract::get_admin(&env), Err(ContractError::NotInitialized));
}

#[test]
fn initialize_needs_proof_from_admin() {
    let admin = Address::from_str("GADMIN");
    let mut env = Env::new(10);
    assert_eq!(
        DigitalIdentityContract::initialize(&mut env, admin.clone()),
        Err(ContractError::AuthorizationFailure)
    );
    assert_eq!(DigitalIdentityContract::get_admin(&env), Err(ContractError::NotInitialized));
}

#[test]
fn second_initialization_replaces_admin_and_resets_count() {
    let admin = Address::from_str("GADMIN");
    let usurper = Address::from_str("GUSURPER");
    let owner = Address::from_str("GOWNER");
    let mut env = env_with_admin(&admin);
    env.authorized = vec![owner.clone(), usurper.clone()];
    assert_eq!(register(&mut env, "u1", &owner), Ok(true));
    assert_eq!(DigitalIdentityContract::get_total_identities(&env), 1);
    assert_eq!(DigitalIdentityContract::initialize(&mut env, usurper.clone()), Ok(()));
    assert_eq!(DigitalIdentityContract::get_admin(&env), Ok(usurper.clone()));
    assert_eq!(DigitalIdentityContract::get_total_identities(&env), 0);
    assert!(DigitalIdentityContract::get_identity(&env, text("u1"), owner.clone())
        .unwrap()
        .is_some());
}

#[test]
fn deactivation_is_final() {
    let admin = Address::from_str("GADMIN");
    let owner = Address::from_str("GOWNER");
    let grantee = Address::from_str("GGRANTEE");
    let mut env = env_with_admin(&admin);
    env.authorized = vec![admin.clone(), owner.clone()];
    assert_eq!(register(&mut env, "u1", &owner), Ok(true));
    env.timestamp = 1_100;
    assert_eq!(DigitalIdentityContract::deactivate_identity(&mut env, text("u1")), Ok(true));
    let data = DigitalIdentityContract::get_identity(&env, text("u1"), owner.clone())
        .unwrap()
        .unwrap();
    assert!(!data.is_active);
    assert_eq!(data.updated_at, 1_100);
    assert_eq!(DigitalIdentityContract::get_total_identities(&env), 1);

    assert_eq!(
        DigitalIdentityContract::update_identity(&mut env, text("u1"), text("n"), text("e"), vec![]),
        Ok(true)
    );
    assert_eq!(DigitalIdentityContract::verify_identity(&mut env, text("u1"), 2), Ok(true));
    assert_eq!(
        DigitalIdentityContract::grant_access(&mut env, text("u1"), grantee.clone(), 3, 10),
        Ok(true)
    );
    assert_eq!(
        DigitalIdentityContract::revoke_access(&mut env, text("u1"), grantee.clone()),
        Ok(true)
    );
    assert_eq!(register(&mut env, "u1", &owner), Ok(false));
    assert_eq!(DigitalIdentityContract::deactivate_identity(&mut env, text("u1")), Ok(true));
    let data = DigitalIdentityContract::get_identity(&env, text("u1"), owner.clone())
        .unwrap()
        .unwrap();
    assert!(!data.is_active);
}

#[test]
fn deactivation_of_missing_identity_returns_false() {
    let mut env = Env::new(10);
    assert_eq!(DigitalIdentityContract::deactivate_identity(&mut env, text("nobody")), Ok(false));
}

#[test]
fn deactivation_needs_proof_from_owner() {
    let owner = Address::from_str("GOWNER");
    let mut env = Env::new(10);
    env.authorized = vec![owner.clone()];
    assert_eq!(register(&mut env, "u1", &owner), Ok(true));
    env.authorized = vec![];
    assert_eq!(
        DigitalIdentityContract::deactivate_identity(&mut env, text("u1")),
        Err(ContractError::AuthorizationFailure)
    );
    env.authorized = vec![owner.clone()];
    assert!(DigitalIdentityContract::get_identity(&env, text("u1"), owner.clone())
        .unwrap()
        .unwrap()
        .is_active);
}
