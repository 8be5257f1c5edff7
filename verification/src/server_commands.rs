use vstd::prelude::*;

verus! {

/// The aliases of the server's commands; an empty alias disables a command.
#[derive(Debug, Clone)]
pub struct ServerCommands {
    spawn: String,
    fly: String,
    fly_speed: String,
    transfer: String,
    server: String,
}

/// Whether a command is offered, and under which name.
#[derive(Debug, Clone, PartialEq, Eq)]
pub enum ServerCommand {
    Disabled,
    Enabled { alias: String },
}

/// The command state of an alias: disabled when empty.
pub open spec fn command_for(alias: String) -> ServerCommand {
    if alias@.len() == 0 {
        ServerCommand::Disabled
    } else {
        ServerCommand::Enabled { alias }
    }
}

impl Default for ServerCommands {
    /// Every command disabled.
    fn default() -> (c: Self)
        ensures
            c.spawn_alias()@.len() == 0 && c.fly_alias()@.len() == 0 && c.fly_speed_alias()@.len()
                == 0 && c.transfer_alias()@.len() == 0 && c.server_alias()@.len() == 0,
    {
        ServerCommands {
            spawn: String::new(),
            fly: String::new(),
            fly_speed: String::new(),
            transfer: String::new(),
            server: String::new(),
        }
    }
}

impl ServerCommands {
    pub closed spec fn spawn_alias(&self) -> String {
        self.spawn
    }

    pub closed spec fn fly_alias(&self) -> String {
        self.fly
    }

    pub closed spec fn fly_speed_alias(&self) -> String {
        self.fly_speed
    }

    pub closed spec fn transfer_alias(&self) -> String {
        self.transfer
    }

    pub closed spec fn server_alias(&self) -> String {
        self.server
    }

    /// The command aliases, as configured.
    pub fn new(spawn: String, fly: String, fly_speed: String, transfer: String, server: String) -> (c: Self)
        ensures
            c.spawn_alias() == spawn && c.fly_alias() == fly && c.fly_speed_alias() == fly_speed
                && c.transfer_alias() == transfer && c.server_alias() == server,
    {
        ServerCommands { spawn, fly, fly_speed, transfer, server }
    }

    /// The state of a command named by `alias`: disabled when empty.
    pub fn server_command(alias: String) -> (c: ServerCommand)
        ensures
            c == command_for(alias),
    {
        if alias.as_str().is_empty() {
            ServerCommand::Disabled
        } else {
            ServerCommand::Enabled { alias }
        }
    }

    pub fn spawn(&self) -> (c: ServerCommand)
        ensures
            c == command_for(self.spawn_alias()),
    {
        Self::server_command(self.spawn.clone())
    }

    pub fn fly(&self) -> (c: ServerCommand)
        ensures
            c == command_for(self.fly_alias()),
    {
        Self::server_command(self.fly.clone())
    }

    pub fn fly_speed(&self) -> (c: ServerCommand)
        ensures
            c == command_for(self.fly_speed_alias()),
    {
        Self::server_command(self.fly_speed.clone())
    }

    pub fn transfer(&self) -> (c: ServerCommand)
        ensures
            c == command_for(self.transfer_alias()),
    {
        Self::server_command(self.transfer.clone())
    }

    pub fn server(&self) -> (c: ServerCommand)
        ensures
            c == command_for(self.server_alias()),
    {
        Self::server_command(self.server.clone())
    }
}

} // verus!
