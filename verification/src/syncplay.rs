//! The messages of the shared-playback protocol.

use vstd::prelude::*;

verus! {

/// Why the connection failed.
#[derive(Debug, Clone)]
pub enum SyncplayError {
    /// Reading or writing failed, with what the system said.
    IoError(String),
}

/// What is needed to join a room.
#[derive(Debug, Clone)]
pub struct ConnectInfo {
    pub passwd_hash: Option<[u8; 16]>,
    pub user_name: String,
    pub room_name: String,
}

#[derive(Debug, Clone)]
pub struct RoomIdentifier {
    pub name: String,
}

/// What a client can do.
#[derive(Debug, Clone, Copy, PartialEq, Eq, Structural)]
pub struct HelloFeatures {
    pub shared_playlists: bool,
    pub chat: bool,
    pub feature_list: bool,
    pub readiness: bool,
    pub managed_rooms: bool,
}

/// A message of the client.
#[derive(Debug, Clone)]
pub enum ClientMessage {
    Hello {
        username: String,
        password_md5: Option<[u8; 16]>,
        room: RoomIdentifier,
        version: String,
        realversion: String,
        features: HelloFeatures,
    },
    SetValue,
    List,
    State,
    Chat,
    TLS,
    Error { message: String },
}

/// The greeting of the server.
#[derive(Debug, Clone)]
pub struct ServerHello {
    pub username: String,
    pub version: String,
    pub motd: String,
    pub room: RoomIdentifier,
}

#[derive(Debug, Clone)]
pub struct Ready {
    pub username: Option<String>,
    pub is_ready: Option<bool>,
    pub manually_initiated: bool,
}

#[derive(Debug, Clone)]
pub struct PlaylistIndex {
    pub user: Option<String>,
    pub index: Option<u32>,
}

#[derive(Debug, Clone)]
pub struct PlaylistChange {
    pub user: Option<String>,
    pub files: Vec<String>,
}

impl ConnectInfo {
    /// The greeting that joins the room: the name, the password where there
    /// is one, the versions of the protocol and what this client can do.
    pub fn hello(self) -> (m: ClientMessage)
        ensures
            m matches ClientMessage::Hello {
                username,
                password_md5,
                room,
                version,
                realversion,
                features,
            } && username@ == self.user_name@ && password_md5 == self.passwd_hash && room.name@
                == self.room_name@ && version@ == "1.2.255"@ && realversion@ == "1.7.3"@ && features
                == (HelloFeatures {
                shared_playlists: true,
                chat: true,
                feature_list: true,
                readiness: true,
                managed_rooms: false,
            }),
    {
        ClientMessage::Hello {
            username: self.user_name,
            password_md5: self.passwd_hash,
            room: RoomIdentifier { name: self.room_name },
            version: "1.2.255".to_owned(),
            realversion: "1.7.3".to_owned(),
            features: HelloFeatures {
                shared_playlists: true,
                chat: true,
                feature_list: true,
                readiness: true,
                managed_rooms: false,
            },
        }
    }
}

} // verus!
