//! The application configuration and the rules for assembling it from the
//! environment's raw values.

use vstd::prelude::*;

verus! {

/// Which mechanism authenticates requests.
pub enum AuthMethod {
    /// Bearer tokens verified against the remote user pool.
    Cognito,
    /// A shared secret compared against the bearer token.
    Secret,
}

/// The application's configuration.
pub struct Config {
    pub aws_region: String,
    pub dynamodb_table_name: String,
    pub dynamodb_user_table_name: Option<String>,
    pub auth_method: AuthMethod,
    pub cognito_region: Option<String>,
    pub cognito_user_pool_id: Option<String>,
    pub cognito_client_id: Option<String>,
    pub secret: Option<String>,
}

impl Config {
    /// Assembles the configuration from the environment's raw values: the
    /// method name picks the arm, and the arm's required values must all
    /// be present; anything else yields nothing.
    ///
    /// The Cognito arm requires the region, table and the three Cognito
    /// values; the secret arm requires the region, both tables and the
    /// secret.  Values the chosen arm does not use are dropped.
    pub fn from_values(
        auth_method: &String,
        aws_region: Option<String>,
        dynamodb_table_name: Option<String>,
        user_table_name: Option<String>,
        cognito_region: Option<String>,
        cognito_user_pool_id: Option<String>,
        cognito_client_id: Option<String>,
        secret: Option<String>,
    ) -> (r: Option<Config>)
        ensures
            auth_method@ == "COGNITO"@ ==> r == (match (
                aws_region,
                dynamodb_table_name,
                cognito_region,
                cognito_user_pool_id,
                cognito_client_id,
            ) {
                (Some(region), Some(table), Some(cr), Some(pool), Some(client)) => Some(
                    Config {
                        aws_region: region,
                        dynamodb_table_name: table,
                        dynamodb_user_table_name: None,
                        auth_method: AuthMethod::Cognito,
                        cognito_region: Some(cr),
                        cognito_user_pool_id: Some(pool),
                        cognito_client_id: Some(client),
                        secret: None,
                    },
                ),
                _ => None,
            }),
            auth_method@ == "SECRET"@ ==> r == (match (
                aws_region,
                dynamodb_table_name,
                user_table_name,
                secret,
            ) {
                (Some(region), Some(table), Some(user_table), Some(s)) => Some(
                    Config {
                        aws_region: region,
                        dynamodb_table_name: table,
                        dynamodb_user_table_name: Some(user_table),
                        auth_method: AuthMethod::Secret,
                        cognito_region: None,
                        cognito_user_pool_id: None,
                        cognito_client_id: None,
                        secret: Some(s),
                    },
                ),
                _ => None,
            }),
            auth_method@ != "COGNITO"@ && auth_method@ != "SECRET"@ ==> r is None,
    {
        proof {
            reveal_strlit("COGNITO");
            reveal_strlit("SECRET");
            assert(("COGNITO")@.len() == 7);
            assert(("SECRET")@.len() == 6);
            assert(("COGNITO")@ != ("SECRET")@);
        }
        if *auth_method == "COGNITO".to_owned() {
            match (
                aws_region,
                dynamodb_table_name,
                cognito_region,
                cognito_user_pool_id,
                cognito_client_id,
            ) {
                (Some(region), Some(table), Some(cr), Some(pool), Some(client)) => Some(
                    Config {
                        aws_region: region,
                        dynamodb_table_name: table,
                        dynamodb_user_table_name: None,
                        auth_method: AuthMethod::Cognito,
                        cognito_region: Some(cr),
                        cognito_user_pool_id: Some(pool),
                        cognito_client_id: Some(client),
                        secret: None,
                    },
                ),
                _ => None,
            }
        } else if *auth_method == "SECRET".to_owned() {
            match (aws_region, dynamodb_table_name, user_table_name, secret) {
                (Some(region), Some(table), Some(user_table), Some(s)) => Some(
                    Config {
                        aws_region: region,
                        dynamodb_table_name: table,
                        dynamodb_user_table_name: Some(user_table),
                        auth_method: AuthMethod::Secret,
                        cognito_region: None,
                        cognito_user_pool_id: None,
                        cognito_client_id: None,
                        secret: Some(s),
                    },
                ),
                _ => None,
            }
        } else {
            None
        }
    }
}

} // verus!
