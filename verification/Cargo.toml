[package]
name = "template"
version = "0.1.0"
edition = "2021"
publish = false

[dependencies]
uuid = { version = "=1.27.0", features = ["v4"] }
serde = { version = "=1.0.229", features = ["derive"] }
serde_json = "=1.0.151"
serde_dynamo = { version = "=4.3.0", features = ["aws-sdk-dynamodb+1"] }
aws-config = "=1.12.0"
aws-sdk-dynamodb = "=1.130.0"
axum = "=0.8.9"
lambda_http = "=1.3.1"
jsonwebtokens-cognito = "=0.1.1"
tokio = { version = "=1.53.2", features = ["macros", "rt"] }
async-trait = "=0.1.92"
