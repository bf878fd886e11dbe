use chat_relay::response_status::ResponseStatus;
use chat_relay::status::Status;

#[test]
fn response_status_stringify() {
    let success_status = ResponseStatus::Success;
    let error_status = ResponseStatus::Error;

    assert_eq!(success_status.stringify(), "Success".to_string());
    assert_eq!(error_status.stringify(), "Error".to_string());
}

#[test]
fn response_status_from_string() {
    let success_string = "Success".to_string();
    let error_string = "Error".to_string();

    assert_eq!(ResponseStatus::from_string(success_string), ResponseStatus::Success);
    assert_eq!(ResponseStatus::from_string(error_string), ResponseStatus::Error);
}

#[test]
fn response_status_display() {
    let success_status = ResponseStatus::Success;
    let error_status = ResponseStatus::Error;

    assert_eq!(success_status.stringify(), "Success");
    assert_eq!(error_status.stringify(), "Error");
}

#[test]
fn status_stringify() {
    let success_status = Status::Success;
    let error_status = Status::Error;

    assert_eq!(success_status.stringify(), "Success".to_string());
    assert_eq!(error_status.stringify(), "Error".to_string());
}

#[test]
fn status_from_string() {
    let success_string = "Success";
    let error_string = "Error";

    assert_eq!(Status::from_string(success_string), Status::Success);
    assert_eq!(Status::from_string(error_string), Status::Error);
}

#[test]
fn status_display() {
    let success_status = Status::Success;
    let error_status = Status::Error;

    assert_eq!(success_status.stringify(), "Success");
    assert_eq!(error_status.stringify(), "Error");
}
