//! Players, their persistent input state and the commands that change it.

use vstd::prelude::*;

verus! {

/// One of the two players. A player's seat is the index that the network
/// layer gives to the player's connection.
#[derive(Clone, Copy, Debug, PartialEq, Eq, Hash, Structural)]
pub enum PlayerId {
    Player1,
    Player2,
}

/// The field of the input state that a command names.
#[derive(Clone, Copy, Debug, PartialEq, Eq, Structural)]
pub enum PlayerCommand {
    Action,
    Left,
    Right,
}

/// A command: set one field of one player's input state.
#[derive(Clone, Copy, Debug, PartialEq, Eq, Structural)]
pub enum GameCommand {
    Input(PlayerId, PlayerCommand, bool),
}

/// Last known state of a player's three controls. The fields hold levels,
/// not edges: a control stays pressed until a command releases it.
#[derive(Clone, Copy, Debug, PartialEq, Eq, Structural)]
pub struct PlayerInput {
    pub action: bool,
    pub left: bool,
    pub right: bool,
}

impl PlayerId {
    /// The player's seat: 0 for the first player, 1 for the second.
    pub open spec fn seat(self) -> int {
        match self {
            PlayerId::Player1 => 0,
            PlayerId::Player2 => 1,
        }
    }

    /// The sign by which the player's side of the arena is mirrored: the
    /// first player's up and right are the second player's down and left.
    pub open spec fn mirror_sign(self) -> int {
        match self {
            PlayerId::Player1 => 1,
            PlayerId::Player2 => -1,
        }
    }

    /// The other player.
    pub open spec fn other(self) -> PlayerId {
        match self {
            PlayerId::Player1 => PlayerId::Player2,
            PlayerId::Player2 => PlayerId::Player1,
        }
    }

    /// The player who sits at `client_id`. Only the low eight bits of the
    /// index count.
    pub open spec fn seated_at(client_id: int) -> Option<PlayerId> {
        if client_id % 256 == 0 {
            Some(PlayerId::Player1)
        } else if client_id % 256 == 1 {
            Some(PlayerId::Player2)
        } else {
            None
        }
    }

    pub fn as_usize(&self) -> (seat: usize)
        ensures
            seat == self.seat(),
    {
        match self {
            PlayerId::Player1 => 0,
            PlayerId::Player2 => 1,
        }
    }

    pub fn mirror(&self) -> (sign: i32)
        ensures
            sign == self.mirror_sign(),
    {
        match self {
            PlayerId::Player1 => 1,
            PlayerId::Player2 => -1,
        }
    }

    pub fn opponent(&self) -> (id: PlayerId)
        ensures
            id == self.other(),
    {
        match self {
            PlayerId::Player1 => PlayerId::Player2,
            PlayerId::Player2 => PlayerId::Player1,
        }
    }

    /// The player that a connection plays, if it plays one.
    pub fn from_client_handle(client_id: usize) -> (id: Option<PlayerId>)
        ensures
            id == Self::seated_at(client_id as int),
    {
        let low: usize = client_id % 256;
        if low == 0 {
            Some(PlayerId::Player1)
        } else if low == 1 {
            Some(PlayerId::Player2)
        } else {
            None
        }
    }

    /// Short name of the player, as shown in logs.
    pub fn label(&self) -> (name: String)
        ensures
            name@ == (match *self {
                PlayerId::Player1 => "P1"@,
                PlayerId::Player2 => "P2"@,
            }),
    {
        match self {
            PlayerId::Player1 => "P1".to_string(),
            PlayerId::Player2 => "P2".to_string(),
        }
    }
}

impl PlayerInput {
    /// No control pressed.
    pub open spec fn released() -> PlayerInput {
        PlayerInput { action: false, left: false, right: false }
    }

    /// The state with one field overwritten.
    pub open spec fn with(self, field: PlayerCommand, value: bool) -> PlayerInput {
        match field {
            PlayerCommand::Action => PlayerInput { action: value, ..self },
            PlayerCommand::Left => PlayerInput { left: value, ..self },
            PlayerCommand::Right => PlayerInput { right: value, ..self },
        }
    }

    /// The level of one field.
    pub open spec fn level(self, field: PlayerCommand) -> bool {
        match field {
            PlayerCommand::Action => self.action,
            PlayerCommand::Left => self.left,
            PlayerCommand::Right => self.right,
        }
    }

    /// The state after a sequence of writes, applied first to last.
    pub open spec fn with_all(self, writes: Seq<(PlayerCommand, bool)>) -> PlayerInput
        decreases writes.len(),
    {
        if writes.len() == 0 {
            self
        } else {
            self.with_all(writes.drop_last()).with(writes.last().0, writes.last().1)
        }
    }

    /// Overwrites one field; the other two keep their levels.
    pub fn set(&mut self, field: PlayerCommand, value: bool)
        ensures
            *final(self) == old(self).with(field, value),
    {
        match field {
            PlayerCommand::Action => self.action = value,
            PlayerCommand::Left => self.left = value,
            PlayerCommand::Right => self.right = value,
        }
    }
}

impl Default for PlayerInput {
    fn default() -> (input: PlayerInput)
        ensures
            input == PlayerInput::released(),
    {
        PlayerInput { action: false, left: false, right: false }
    }
}

impl GameCommand {
    /// The player whose input the command changes.
    pub open spec fn target(self) -> PlayerId {
        match self {
            GameCommand::Input(player, _, _) => player,
        }
    }

    /// The field and level that the command writes.
    pub open spec fn write(self) -> (PlayerCommand, bool) {
        match self {
            GameCommand::Input(_, field, value) => (field, value),
        }
    }

    /// A command is attributable to a connection exactly when it names the
    /// player who sits at that connection's index.
    pub open spec fn attributable_to(self, client_id: int) -> bool {
        self.target().seat() == client_id
    }

    pub fn player(&self) -> (id: PlayerId)
        ensures
            id == self.target(),
    {
        match self {
            GameCommand::Input(player, _, _) => *player,
        }
    }
}

/// The commands a player has to issue so that the simulation's copy of the
/// input state follows the controls: one command for each field whose level
/// differs, in the order action, left, right.
pub open spec fn changes(player: PlayerId, previous: PlayerInput, current: PlayerInput) -> Seq<
    GameCommand,
> {
    let action = if previous.action != current.action {
        seq![GameCommand::Input(player, PlayerCommand::Action, current.action)]
    } else {
        Seq::<GameCommand>::empty()
    };
    let left = if previous.left != current.left {
        seq![GameCommand::Input(player, PlayerCommand::Left, current.left)]
    } else {
        Seq::<GameCommand>::empty()
    };
    let right = if previous.right != current.right {
        seq![GameCommand::Input(player, PlayerCommand::Right, current.right)]
    } else {
        Seq::<GameCommand>::empty()
    };
    action + left + right
}

/// Compares the controls with their last reported state and lists the
/// commands that report the difference.
pub fn input_changes(player: PlayerId, previous: &PlayerInput, current: &PlayerInput) -> (commands:
    Vec<GameCommand>)
    ensures
        commands@ == changes(player, *previous, *current),
{
    let mut commands: Vec<GameCommand> = Vec::new();
    if previous.action != current.action {
        commands.push(GameCommand::Input(player, PlayerCommand::Action, current.action));
    }
    if previous.left != current.left {
        commands.push(GameCommand::Input(player, PlayerCommand::Left, current.left));
    }
    if previous.right != current.right {
        commands.push(GameCommand::Input(player, PlayerCommand::Right, current.right));
    }
    assert(commands@ =~= changes(player, *previous, *current));
    commands
}

/// Writing the reported changes into the last reported state gives the
/// controls' state.
pub proof fn lemma_changes_reach_current(
    player: PlayerId,
    previous: PlayerInput,
    current: PlayerInput,
)
    ensures
        previous.with_all(changes(player, previous, current).map_values(|c: GameCommand| c.write()))
            == current,
        forall|i: int|
            0 <= i < changes(player, previous, current).len() ==> (#[trigger] changes(
                player,
                previous,
                current,
            )[i]).target() == player,
{
    let cs = changes(player, previous, current);
    let ws = cs.map_values(|c: GameCommand| c.write());
    reveal_with_fuel(PlayerInput::with_all, 4);
    if ws.len() == 0 {
    } else if ws.len() == 1 {
        assert(ws.drop_last().len() == 0);
    } else if ws.len() == 2 {
        assert(ws.drop_last().len() == 1);
        assert(ws.drop_last().drop_last().len() == 0);
    } else {
        assert(ws.len() == 3);
        assert(ws.drop_last().len() == 2);
        assert(ws.drop_last().drop_last().len() == 1);
        assert(ws.drop_last().drop_last().drop_last().len() == 0);
    }
}

} // verus!
