//! The route-level decisions, the middleware decisions, the configuration
//! rules, and the end-to-end soft-delete scenario.

use template::auth::AuthError;
use template::auth::Claims;
use template::config::AuthMethod;
use template::config::Config;
use template::db::DynamoDbOperations;
use template::db::OperationResult;
use template::db::Repository;
use template::item::CreateItem;
use template::item::Item;
use template::middleware::auth_decision;
use template::middleware::AuthDecision;
use template::middleware::SecretAuth;
use template::routes;
use template::user::User;
use template::user::UserDynamoDbRepository;

fn claims_for(username: &str) -> Claims {
    Claims {
        sub: format!("sub-{}", username),
        exp: 2000,
        client_id: "client".to_string(),
        scope: "openid".to_string(),
        token_use: "access".to_string(),
        username: username.to_string(),
        auth_time: 1000,
        iss: "https://example.test/pool".to_string(),
        iat: 1000,
        jti: "jti".to_string(),
        origin_jti: "origin-jti".to_string(),
        event_id: "event".to_string(),
    }
}

#[test]
fn test_end_to_end_soft_delete_scenario() {
    let mut db: Repository<Item> = Repository::new(2);
    let (created, k1) = routes::create(
        &mut db,
        CreateItem {
            name: "Ann".to_string(),
            age: 30,
        },
    );
    assert!(matches!(created, OperationResult::Success(None)));
    match db.get_item(k1.clone()) {
        OperationResult::Success(Some(found)) => {
            assert_eq!(found.id, k1);
            assert_eq!(found.name, "Ann");
            assert_eq!(found.age, 30);
            assert_eq!(found.deleted_at, None);
        }
        _ => panic!("Expected Success with item"),
    }
    let bob = claims_for("bob");
    let deleted = routes::delete(&mut db, k1.clone(), Some(&bob), "2023-09-01".to_string());
    assert!(matches!(deleted, Some(OperationResult::Success(None))));
    assert!(matches!(
        db.get_item(k1.clone()),
        OperationResult::ItemNotFound
    ));
    match db.get_deleted_items_by_user("bob".to_string()) {
        OperationResult::Success(Some(items)) => {
            assert_eq!(items.len(), 1);
            assert_eq!(items[0].id, k1);
            assert_eq!(items[0].deleted_by, Some("bob".to_string()));
        }
        _ => panic!("Expected Success with items"),
    }
}

#[test]
fn test_delete_route_without_identity() {
    let mut db: Repository<Item> = Repository::new(2);
    db.create(Item {
        id: "kept".to_string(),
        name: "kept".to_string(),
        age: 7,
        deleted_at: None,
        deleted_by: None,
    });
    let result = routes::delete(&mut db, "kept".to_string(), None, "2023-09-01".to_string());
    assert!(result.is_none());
    assert!(matches!(
        db.get_item("kept".to_string()),
        OperationResult::Success(Some(_))
    ));
}

#[test]
fn test_update_route_rejects_mismatched_id() {
    let mut db: Repository<Item> = Repository::new(2);
    db.create(Item {
        id: "a".to_string(),
        name: "a".to_string(),
        age: 1,
        deleted_at: None,
        deleted_by: None,
    });
    let result = routes::update(
        &mut db,
        "a".to_string(),
        Item {
            id: "b".to_string(),
            name: "b".to_string(),
            age: 2,
            deleted_at: None,
            deleted_by: None,
        },
    );
    assert!(matches!(result, OperationResult::InvalidInput));
}

#[test]
fn test_update_route_rejects_marked_item() {
    let mut db: Repository<Item> = Repository::new(2);
    db.create(Item {
        id: "a".to_string(),
        name: "a".to_string(),
        age: 1,
        deleted_at: None,
        deleted_by: None,
    });
    let result = routes::update(
        &mut db,
        "a".to_string(),
        Item {
            id: "a".to_string(),
            name: "a".to_string(),
            age: 2,
            deleted_at: Some("2023-01-01".to_string()),
            deleted_by: Some("x".to_string()),
        },
    );
    assert!(matches!(result, OperationResult::InvalidInput));
}

#[test]
fn test_operation_result_response_parts() {
    assert_eq!(
        OperationResult::<Item>::ItemNotFound.response_parts(),
        (404, "Item not found".to_string())
    );
    assert_eq!(
        OperationResult::<Item>::ItemAlreadyExists.response_parts(),
        (409, "Item already exists".to_string())
    );
    assert_eq!(
        OperationResult::<Item>::InvalidInput.response_parts(),
        (400, "Invalid input".to_string())
    );
    assert_eq!(
        OperationResult::<Item>::InternalError("Service Error".to_string()).response_parts(),
        (500, "Service Error".to_string())
    );
}

#[test]
fn test_update_admin_status() {
    let mut db: Repository<User> = Repository::new(2);
    let user = User {
        id: "u1".to_string(),
        email: "u1@example.test".to_string(),
        username: "uone".to_string(),
        created_at: "2023-01-01".to_string(),
        email_verified: true,
        password_hash: None,
        admin: false,
        deleted_at: None,
        deleted_by: None,
    };
    assert!(matches!(db.create(user), OperationResult::Success(None)));
    let result = db.update_admin_status("u1".to_string(), true);
    assert!(matches!(result, OperationResult::Success(None)));
    match db.get_item("u1".to_string()) {
        OperationResult::Success(Some(found)) => {
            assert!(found.admin);
            assert_eq!(found.username, "uone");
        }
        _ => panic!("Expected Success with item"),
    }
    let missing = db.update_admin_status("u2".to_string(), true);
    assert!(matches!(missing, OperationResult::ItemNotFound));
}

#[test]
fn test_update_admin_status_on_deleted_user() {
    let mut db: Repository<User> = Repository::new(2);
    db.create(User {
        id: "u1".to_string(),
        email: "u1@example.test".to_string(),
        username: "uone".to_string(),
        created_at: "2023-01-01".to_string(),
        email_verified: true,
        password_hash: None,
        admin: false,
        deleted_at: None,
        deleted_by: None,
    });
    db.soft_delete(
        "u1".to_string(),
        "admin".to_string(),
        "2023-02-01".to_string(),
    );
    let result = db.update_admin_status("u1".to_string(), true);
    assert!(matches!(result, OperationResult::ItemNotFound));
}

#[test]
fn test_secret_authorize() {
    let auth = SecretAuth::new("let-me-in".to_string());
    let good = "let-me-in".to_string();
    let bad = "wrong".to_string();
    assert!(auth.authorize(Some(&good)));
    assert!(!auth.authorize(Some(&bad)));
    assert!(!auth.authorize(None));
}

#[test]
fn test_auth_decision_table() {
    let claims = claims_for("carol");
    match auth_decision(true, Some(Ok(claims.clone()))) {
        AuthDecision::Authenticated(c) => assert_eq!(c.username, "carol"),
        _ => panic!("Expected Authenticated"),
    }
    assert!(matches!(
        auth_decision(true, Some(Err(AuthError::InvalidSignature))),
        AuthDecision::DeniedInvalid(AuthError::InvalidSignature)
    ));
    assert!(matches!(
        auth_decision(false, Some(Err(AuthError::TokenExpired))),
        AuthDecision::Anonymous
    ));
    assert!(matches!(auth_decision(true, None), AuthDecision::DeniedMissing));
    assert!(matches!(auth_decision(false, None), AuthDecision::Anonymous));
}

#[test]
fn test_config_from_values_secret() {
    let config = Config::from_values(
        &"SECRET".to_string(),
        Some("us-east-1".to_string()),
        Some("items".to_string()),
        Some("users".to_string()),
        None,
        None,
        None,
        Some("shhh".to_string()),
    )
    .unwrap();
    assert!(matches!(config.auth_method, AuthMethod::Secret));
    assert_eq!(config.aws_region, "us-east-1");
    assert_eq!(config.dynamodb_table_name, "items");
    assert_eq!(config.dynamodb_user_table_name, Some("users".to_string()));
    assert_eq!(config.secret, Some("shhh".to_string()));
    assert_eq!(config.cognito_region, None);
}

#[test]
fn test_config_from_values_cognito() {
    let config = Config::from_values(
        &"COGNITO".to_string(),
        Some("us-east-1".to_string()),
        Some("items".to_string()),
        None,
        Some("us-east-1".to_string()),
        Some("pool".to_string()),
        Some("client".to_string()),
        None,
    )
    .unwrap();
    assert!(matches!(config.auth_method, AuthMethod::Cognito));
    assert_eq!(config.dynamodb_user_table_name, None);
    assert_eq!(config.cognito_user_pool_id, Some("pool".to_string()));
    assert_eq!(config.secret, None);
}

#[test]
fn test_config_from_values_rejects() {
    // An unknown method name yields nothing.
    assert!(Config::from_values(
        &"BASIC".to_string(),
        Some("us-east-1".to_string()),
        Some("items".to_string()),
        None,
        None,
        None,
        None,
        None,
    )
    .is_none());
    // A missing required value yields nothing.
    assert!(Config::from_values(
        &"SECRET".to_string(),
        Some("us-east-1".to_string()),
        Some("items".to_string()),
        None,
        None,
        None,
        None,
        Some("shhh".to_string()),
    )
    .is_none());
}
