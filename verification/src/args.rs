//! The command line of the bot, how it is checked, and the settings it gives.
//!
//! At least one receiver must be switched on; a receiver that is on needs its
//! credentials and its target. Defaults: port 3030, templates under `templates/`.
use vstd::prelude::*;

verus! {

/// The options of the command line (each may also come from the environment).
pub struct Args {
    /// Port to listen on.
    pub port: u16,
    /// Whether Telegram is a receiver.
    pub tg: bool,
    /// Telegram bot token.
    pub tg_token: Option<String>,
    /// Telegram chat ID.
    pub tg_chat_id: Option<i64>,
    /// Path to the handlebars template for Telegram.
    pub tg_template_path: String,
    /// Whether Matrix is a receiver.
    pub matrix: bool,
    /// Matrix user name.
    pub matrix_user: Option<String>,
    /// Matrix password.
    pub matrix_pass: Option<String>,
    /// Matrix room ID.
    pub matrix_room_id: Option<String>,
    /// Path to the handlebars template for Matrix.
    pub matrix_template_path: String,
}

/// The port listened on where none is given.
pub const DEFAULT_PORT: u16 = 3030;

impl Default for Args {
    /// No receiver, nothing given, and the default port and template paths.
    fn default() -> (r: Args)
        ensures
            r.port == DEFAULT_PORT,
            !r.tg,
            r.tg_token is None,
            r.tg_chat_id is None,
            r.tg_template_path@ == "templates/default.tg.hbs"@,
            !r.matrix,
            r.matrix_user is None,
            r.matrix_pass is None,
            r.matrix_room_id is None,
            r.matrix_template_path@ == "templates/default.matrix.hbs"@,
    {
        Args {
            port: DEFAULT_PORT,
            tg: false,
            tg_token: None,
            tg_chat_id: None,
            tg_template_path: String::from_str("templates/default.tg.hbs"),
            matrix: false,
            matrix_user: None,
            matrix_pass: None,
            matrix_room_id: None,
            matrix_template_path: String::from_str("templates/default.matrix.hbs"),
        }
    }
}

/// Why a command line is refused.
#[derive(Debug, Clone, Copy, PartialEq, Eq, Structural)]
pub enum ArgsError {
    /// Neither Telegram nor Matrix is switched on.
    NoReceiver,
    /// Telegram is on without a bot token.
    MissingTelegramToken,
    /// Telegram is on without a chat ID.
    MissingTelegramChatId,
    /// Matrix is on without a user name.
    MissingMatrixUser,
    /// Matrix is on without a password.
    MissingMatrixPassword,
    /// Matrix is on without a room ID.
    MissingMatrixRoomId,
}

/// Where alerts go on Telegram.
pub struct TelegramTarget {
    /// The bot token.
    pub token: String,
    /// The chat the alerts are sent to.
    pub chat_id: i64,
}

/// Where alerts go on Matrix.
pub struct MatrixTarget {
    /// The user the bot logs in as.
    pub user: String,
    /// Its password.
    pub password: String,
    /// The room the alerts are sent to.
    pub room_id: String,
}

/// The settings of a checked command line.
pub struct Config {
    /// Port to listen on.
    pub port: u16,
    /// The Telegram receiver, where it is on.
    pub telegram: Option<TelegramTarget>,
    /// The Matrix receiver, where it is on.
    pub matrix: Option<MatrixTarget>,
    /// Path to the handlebars template for Telegram.
    pub tg_template_path: String,
    /// Path to the handlebars template for Matrix.
    pub matrix_template_path: String,
}

impl Args {
    /// The first rule of the command line that `self` breaks, if any: at least one
    /// receiver must be on; Telegram needs a token, then a chat ID; Matrix needs a
    /// user, then a password, then a room ID.
    pub open spec fn violation(&self) -> Option<ArgsError> {
        if !self.tg && !self.matrix {
            Some(ArgsError::NoReceiver)
        } else if self.tg && self.tg_token is None {
            Some(ArgsError::MissingTelegramToken)
        } else if self.tg && self.tg_chat_id is None {
            Some(ArgsError::MissingTelegramChatId)
        } else if self.matrix && self.matrix_user is None {
            Some(ArgsError::MissingMatrixUser)
        } else if self.matrix && self.matrix_pass is None {
            Some(ArgsError::MissingMatrixPassword)
        } else if self.matrix && self.matrix_room_id is None {
            Some(ArgsError::MissingMatrixRoomId)
        } else {
            None
        }
    }

    /// Checks the command line: `Err` with the first rule broken, else `Ok`.
    pub fn check(&self) -> (r: Result<(), ArgsError>)
        ensures
            r is Ok <==> self.violation() is None,
            r matches Err(e) ==> self.violation() == Some(e),
    {
        if !self.tg && !self.matrix {
            Err(ArgsError::NoReceiver)
        } else if self.tg && self.tg_token.is_none() {
            Err(ArgsError::MissingTelegramToken)
        } else if self.tg && self.tg_chat_id.is_none() {
            Err(ArgsError::MissingTelegramChatId)
        } else if self.matrix && self.matrix_user.is_none() {
            Err(ArgsError::MissingMatrixUser)
        } else if self.matrix && self.matrix_pass.is_none() {
            Err(ArgsError::MissingMatrixPassword)
        } else if self.matrix && self.matrix_room_id.is_none() {
            Err(ArgsError::MissingMatrixRoomId)
        } else {
            Ok(())
        }
    }

    /// The settings of the command line: `Err` with the first rule broken, else the
    /// port, the template paths, and each receiver that is on with its credentials
    /// and target as given.
    pub fn into_config(self) -> (r: Result<Config, ArgsError>)
        ensures
            r is Ok <==> self.violation() is None,
            r matches Err(e) ==> self.violation() == Some(e),
            r matches Ok(c) ==> {
                &&& c.port == self.port
                &&& c.tg_template_path@ == self.tg_template_path@
                &&& c.matrix_template_path@ == self.matrix_template_path@
                &&& (c.telegram is Some <==> self.tg)
                &&& (c.telegram matches Some(t) ==> {
                    &&& self.tg_token matches Some(token) && t.token@ == token@
                    &&& self.tg_chat_id == Some(t.chat_id)
                })
                &&& (c.matrix is Some <==> self.matrix)
                &&& (c.matrix matches Some(m) ==> {
                    &&& self.matrix_user matches Some(user) && m.user@ == user@
                    &&& self.matrix_pass matches Some(pass) && m.password@ == pass@
                    &&& self.matrix_room_id matches Some(room) && m.room_id@ == room@
                })
            },
    {
        match self.check() {
            Err(e) => Err(e),
            Ok(()) => {
                let Args {
                    port,
                    tg,
                    tg_token,
                    tg_chat_id,
                    tg_template_path,
                    matrix,
                    matrix_user,
                    matrix_pass,
                    matrix_room_id,
                    matrix_template_path,
                } = self;
                let telegram = if tg {
                    match (tg_token, tg_chat_id) {
                        (Some(token), Some(chat_id)) => Some(TelegramTarget { token, chat_id }),
                        _ => None,
                    }
                } else {
                    None
                };
                let matrix_target = if matrix {
                    match (matrix_user, matrix_pass, matrix_room_id) {
                        (Some(user), Some(password), Some(room_id)) => Some(
                            MatrixTarget { user, password, room_id },
                        ),
                        _ => None,
                    }
                } else {
                    None
                };
                Ok(Config {
                    port,
                    telegram: telegram,
                    matrix: matrix_target,
                    tg_template_path,
                    matrix_template_path,
                })
            },
        }
    }
}

impl Config {
    /// The Telegram chat to send to, `0` where Telegram is off.
    pub fn chat_id(&self) -> (r: i64)
        ensures
            r == (match self.telegram {
                Some(t) => t.chat_id,
                None => 0,
            }),
    {
        match &self.telegram {
            Some(t) => t.chat_id,
            None => 0,
        }
    }

    /// The Matrix room to send to, empty where Matrix is off.
    pub fn room_id(&self) -> (r: String)
        ensures
            r@ == (match self.matrix {
                Some(m) => m.room_id@,
                None => Seq::empty(),
            }),
    {
        match &self.matrix {
            Some(m) => m.room_id.clone(),
            None => String::new(),
        }
    }
}

} // verus!
