use chat_relay::auth::UnauthorizedError;
use chat_relay::user_data::{PasswordItem, PasswordUser, PasswordUserItem, UserItem, UserItems};

#[test]
fn password_item_new() {
    let uuid = uuid::Uuid::new_v4();
    let password_user = PasswordUser {
        id: 0,
        uuid: uuid.to_string(),
        password: "old_password".to_string(),
    };

    let password_user_item = PasswordItem::_new(password_user);

    assert_eq!(password_user_item.uuid, uuid.to_string());
    assert_eq!(password_user_item.old_password, "old_password");
    assert_eq!(password_user_item.new_password, "old_password");
}

#[test]
fn password_user_item_new() {
    let uuid = uuid::Uuid::new_v4();
    let password_user = PasswordUser {
        id: 0,
        uuid: uuid.to_string(),
        password: "old_password".to_string(),
    };

    let password_user_item = PasswordUserItem::new(password_user);

    assert_eq!(password_user_item.uuid, uuid.to_string());
    assert_eq!(password_user_item.old_password, "old_password");
    assert_eq!(password_user_item.new_password, "old_password");
}

#[test]
fn unauthorized_error_message() {
    let error = UnauthorizedError::new("Test error message".to_string());

    assert_eq!(error.message(), "Test error message");
}

#[test]
fn user_items_holds_rendered_users() {
    let user = UserItem {
        uuid: "72655de0-21e6-40f0-9856-9530344bf78d".to_string(),
        username: "user1".to_string(),
        salutation: "Mr.".to_string(),
        first_name: "John".to_string(),
        last_name: "Doe".to_string(),
        email: "user1@example.com".to_string(),
        creation_date: "2022-01-01 00:00:00".to_string(),
        modification_date: Some("2022-01-01 00:00:00".to_string()),
        deletion_date: None,
    };
    let items = UserItems { user_items: vec![user.clone()], user_items_count: 1 };

    assert_eq!(items.user_items_count, 1);
    assert_eq!(items.user_items[0], user);
}
