//! The four message families of the wire protocol and the record types they
//! carry. Every family is a strict tagged union: a value holds exactly one
//! variant by construction. Each executable type has a specification-level
//! view holding character sequences in place of strings.

use crate::wire::str_ok;
use vstd::prelude::*;

verus! {

/// An error notice carried inside a message, with a flag telling the peer
/// whether the connection is about to close.
#[derive(Clone, Debug, PartialEq)]
pub struct ErrorData {
    pub msg: String,
    pub disconnect: bool,
}

pub struct ErrorDataV {
    pub msg: Seq<char>,
    pub disconnect: bool,
}

impl View for ErrorData {
    type V = ErrorDataV;

    open spec fn view(&self) -> ErrorDataV {
        ErrorDataV { msg: self.msg@, disconnect: self.disconnect }
    }
}

impl DeepView for ErrorData {
    type V = ErrorDataV;

    open spec fn deep_view(&self) -> ErrorDataV {
        self.view()
    }
}

impl ErrorDataV {
    pub open spec fn wf(self) -> bool {
        str_ok(self.msg)
    }
}

/// The credentials a client submits during the handshake.
#[derive(Clone, Debug, PartialEq)]
pub struct LoginData {
    pub username: String,
    pub passwd: String,
    pub signup: bool,
    pub client_ver: String,
}

pub struct LoginDataV {
    pub username: Seq<char>,
    pub passwd: Seq<char>,
    pub signup: bool,
    pub client_ver: Seq<char>,
}

impl View for LoginData {
    type V = LoginDataV;

    open spec fn view(&self) -> LoginDataV {
        LoginDataV {
            username: self.username@,
            passwd: self.passwd@,
            signup: self.signup,
            client_ver: self.client_ver@,
        }
    }
}

impl DeepView for LoginData {
    type V = LoginDataV;

    open spec fn deep_view(&self) -> LoginDataV {
        self.view()
    }
}

impl LoginDataV {
    pub open spec fn wf(self) -> bool {
        str_ok(self.username) && str_ok(self.passwd) && str_ok(self.client_ver)
    }
}

/// The wire view of an item: exactly one of `damage` and `defense` is
/// populated, matching the item's type.
#[derive(Clone, Debug, PartialEq)]
pub struct ItemData {
    pub name: String,
    pub level: u32,
    pub itype: u32,
    pub rarity: u32,
    pub damage: Option<u32>,
    pub defense: Option<u32>,
}

pub struct ItemDataV {
    pub name: Seq<char>,
    pub level: u32,
    pub itype: u32,
    pub rarity: u32,
    pub damage: Option<u32>,
    pub defense: Option<u32>,
}

impl View for ItemData {
    type V = ItemDataV;

    open spec fn view(&self) -> ItemDataV {
        ItemDataV {
            name: self.name@,
            level: self.level,
            itype: self.itype,
            rarity: self.rarity,
            damage: self.damage,
            defense: self.defense,
        }
    }
}

impl DeepView for ItemData {
    type V = ItemDataV;

    open spec fn deep_view(&self) -> ItemDataV {
        self.view()
    }
}

impl ItemDataV {
    /// Exactly one of the two stat slots is populated.
    pub open spec fn wf(self) -> bool {
        str_ok(self.name) && (self.damage is Some <==> self.defense is None)
    }
}

/// A snapshot of the player's persistent state, sent to the client.
#[derive(Clone, Debug, PartialEq)]
pub struct PlayerData {
    pub level: u32,
    pub exp: u32,
    pub region: String,
    pub steps: u32,
    pub health: u32,
}

pub struct PlayerDataV {
    pub level: u32,
    pub exp: u32,
    pub region: Seq<char>,
    pub steps: u32,
    pub health: u32,
}

impl View for PlayerData {
    type V = PlayerDataV;

    open spec fn view(&self) -> PlayerDataV {
        PlayerDataV {
            level: self.level,
            exp: self.exp,
            region: self.region@,
            steps: self.steps,
            health: self.health,
        }
    }
}

impl DeepView for PlayerData {
    type V = PlayerDataV;

    open spec fn deep_view(&self) -> PlayerDataV {
        self.view()
    }
}

impl PlayerDataV {
    pub open spec fn wf(self) -> bool {
        str_ok(self.region)
    }
}

/// An enemy description, reserved for the future encounter subsystem.
#[derive(Clone, Debug, PartialEq)]
pub struct EnemyData {
    pub name: String,
    pub race: String,
    pub level: u32,
    pub health: u32,
}

pub struct EnemyDataV {
    pub name: Seq<char>,
    pub race: Seq<char>,
    pub level: u32,
    pub health: u32,
}

impl View for EnemyData {
    type V = EnemyDataV;

    open spec fn view(&self) -> EnemyDataV {
        EnemyDataV { name: self.name@, race: self.race@, level: self.level, health: self.health }
    }
}

impl DeepView for EnemyData {
    type V = EnemyDataV;

    open spec fn deep_view(&self) -> EnemyDataV {
        self.view()
    }
}

impl EnemyDataV {
    pub open spec fn wf(self) -> bool {
        str_ok(self.name) && str_ok(self.race)
    }
}

/// Spoils of a won encounter, reserved for the future encounter subsystem.
#[derive(Clone, Debug, PartialEq)]
pub struct LootData {
    pub items: Vec<ItemData>,
    pub exp: u32,
}

pub struct LootDataV {
    pub items: Seq<ItemDataV>,
    pub exp: u32,
}

impl View for LootData {
    type V = LootDataV;

    open spec fn view(&self) -> LootDataV {
        LootDataV { items: self.items.deep_view(), exp: self.exp }
    }
}

impl DeepView for LootData {
    type V = LootDataV;

    open spec fn deep_view(&self) -> LootDataV {
        self.view()
    }
}

pub open spec fn wf_items(items: Seq<ItemDataV>) -> bool {
    &&& items.len() <= usize::MAX
    &&& forall|k: int| 0 <= k < items.len() ==> (#[trigger] items[k]).wf()
}

impl LootDataV {
    pub open spec fn wf(self) -> bool {
        wf_items(self.items)
    }
}

/// One encounter update: the enemy involved and exactly one of the four
/// possible outcomes.
#[derive(Clone, Debug, PartialEq)]
pub struct EncounterData {
    pub enemy: EnemyData,
    pub attk: Option<u32>,
    pub flee: Option<bool>,
    pub win: Option<LootData>,
    pub lost: Option<bool>,
}

pub struct EncounterDataV {
    pub enemy: EnemyDataV,
    pub attk: Option<u32>,
    pub flee: Option<bool>,
    pub win: Option<LootDataV>,
    pub lost: Option<bool>,
}

impl View for EncounterData {
    type V = EncounterDataV;

    open spec fn view(&self) -> EncounterDataV {
        EncounterDataV {
            enemy: self.enemy@,
            attk: self.attk,
            flee: self.flee,
            win: match self.win {
                Some(l) => Some(l@),
                None => None,
            },
            lost: self.lost,
        }
    }
}

impl DeepView for EncounterData {
    type V = EncounterDataV;

    open spec fn deep_view(&self) -> EncounterDataV {
        self.view()
    }
}

impl EncounterDataV {
    /// How many of the four outcome slots are populated.
    pub open spec fn populated(self) -> int {
        (if self.attk is Some {
            1int
        } else {
            0int
        }) + (if self.flee is Some {
            1int
        } else {
            0int
        }) + (if self.win is Some {
            1int
        } else {
            0int
        }) + (if self.lost is Some {
            1int
        } else {
            0int
        })
    }

    /// Exactly one outcome is populated, and its contents are well formed.
    pub open spec fn wf(self) -> bool {
        &&& self.enemy.wf()
        &&& self.populated() == 1
        &&& (self.win matches Some(l) ==> l.wf())
    }
}

/// First message of a connection: either a bare version probe or a
/// login/signup attempt.
#[derive(Clone, Debug, PartialEq)]
pub enum EntryPoint {
    Version(String),
    LoginAttempt(LoginData),
}

pub enum EntryPointV {
    Version(Seq<char>),
    LoginAttempt(LoginDataV),
}

impl View for EntryPoint {
    type V = EntryPointV;

    open spec fn view(&self) -> EntryPointV {
        match self {
            EntryPoint::Version(s) => EntryPointV::Version(s@),
            EntryPoint::LoginAttempt(l) => EntryPointV::LoginAttempt(l@),
        }
    }
}

impl DeepView for EntryPoint {
    type V = EntryPointV;

    open spec fn deep_view(&self) -> EntryPointV {
        self.view()
    }
}

impl EntryPointV {
    pub open spec fn wf(self) -> bool {
        match self {
            EntryPointV::Version(s) => str_ok(s),
            EntryPointV::LoginAttempt(l) => l.wf(),
        }
    }
}

/// The server's single reply during the handshake.
#[derive(Clone, Debug, PartialEq)]
pub enum EntryResponse {
    Version(String),
    Motd(String),
    Error(String),
}

pub enum EntryResponseV {
    Version(Seq<char>),
    Motd(Seq<char>),
    Error(Seq<char>),
}

impl View for EntryResponse {
    type V = EntryResponseV;

    open spec fn view(&self) -> EntryResponseV {
        match self {
            EntryResponse::Version(s) => EntryResponseV::Version(s@),
            EntryResponse::Motd(s) => EntryResponseV::Motd(s@),
            EntryResponse::Error(s) => EntryResponseV::Error(s@),
        }
    }
}

impl DeepView for EntryResponse {
    type V = EntryResponseV;

    open spec fn deep_view(&self) -> EntryResponseV {
        self.view()
    }
}

impl EntryResponseV {
    pub open spec fn wf(self) -> bool {
        match self {
            EntryResponseV::Version(s) => str_ok(s),
            EntryResponseV::Motd(s) => str_ok(s),
            EntryResponseV::Error(s) => str_ok(s),
        }
    }
}

/// A command sent by the client after the handshake.
#[derive(Clone, Debug, PartialEq)]
pub enum ClientEvent {
    Disconnect,
    KeepAlive(u64),
    Step,
    OpenInv,
    DropItem(String),
    InspectItem(String),
    Attack,
    TryFlee,
    Error(ErrorData),
}

pub enum ClientEventV {
    Disconnect,
    KeepAlive(u64),
    Step,
    OpenInv,
    DropItem(Seq<char>),
    InspectItem(Seq<char>),
    Attack,
    TryFlee,
    Error(ErrorDataV),
}

impl View for ClientEvent {
    type V = ClientEventV;

    open spec fn view(&self) -> ClientEventV {
        match self {
            ClientEvent::Disconnect => ClientEventV::Disconnect,
            ClientEvent::KeepAlive(t) => ClientEventV::KeepAlive(*t),
            ClientEvent::Step => ClientEventV::Step,
            ClientEvent::OpenInv => ClientEventV::OpenInv,
            ClientEvent::DropItem(s) => ClientEventV::DropItem(s@),
            ClientEvent::InspectItem(s) => ClientEventV::InspectItem(s@),
            ClientEvent::Attack => ClientEventV::Attack,
            ClientEvent::TryFlee => ClientEventV::TryFlee,
            ClientEvent::Error(e) => ClientEventV::Error(e@),
        }
    }
}

impl DeepView for ClientEvent {
    type V = ClientEventV;

    open spec fn deep_view(&self) -> ClientEventV {
        self.view()
    }
}

impl ClientEventV {
    pub open spec fn wf(self) -> bool {
        match self {
            ClientEventV::DropItem(s) => str_ok(s),
            ClientEventV::InspectItem(s) => str_ok(s),
            ClientEventV::Error(e) => e.wf(),
            _ => true,
        }
    }
}

/// An update sent by the server after the handshake.
#[derive(Clone, Debug, PartialEq)]
pub enum ServerEvent {
    Disconnect,
    Keepalive(u64),
    Event(String),
    GainExp(u32),
    FindItem(ItemData),
    Encounter(EncounterData),
    Update(PlayerData),
    Inventory(Vec<ItemData>),
    ItemView(ItemData),
    Error(ErrorData),
}

pub enum ServerEventV {
    Disconnect,
    Keepalive(u64),
    Event(Seq<char>),
    GainExp(u32),
    FindItem(ItemDataV),
    Encounter(EncounterDataV),
    Update(PlayerDataV),
    Inventory(Seq<ItemDataV>),
    ItemView(ItemDataV),
    Error(ErrorDataV),
}

impl View for ServerEvent {
    type V = ServerEventV;

    open spec fn view(&self) -> ServerEventV {
        match self {
            ServerEvent::Disconnect => ServerEventV::Disconnect,
            ServerEvent::Keepalive(t) => ServerEventV::Keepalive(*t),
            ServerEvent::Event(s) => ServerEventV::Event(s@),
            ServerEvent::GainExp(x) => ServerEventV::GainExp(*x),
            ServerEvent::FindItem(d) => ServerEventV::FindItem(d@),
            ServerEvent::Encounter(e) => ServerEventV::Encounter(e@),
            ServerEvent::Update(p) => ServerEventV::Update(p@),
            ServerEvent::Inventory(v) => ServerEventV::Inventory(v.deep_view()),
            ServerEvent::ItemView(d) => ServerEventV::ItemView(d@),
            ServerEvent::Error(e) => ServerEventV::Error(e@),
        }
    }
}

impl DeepView for ServerEvent {
    type V = ServerEventV;

    open spec fn deep_view(&self) -> ServerEventV {
        self.view()
    }
}

impl ServerEventV {
    pub open spec fn wf(self) -> bool {
        match self {
            ServerEventV::Event(s) => str_ok(s),
            ServerEventV::FindItem(d) => d.wf(),
            ServerEventV::Encounter(e) => e.wf(),
            ServerEventV::Update(p) => p.wf(),
            ServerEventV::Inventory(items) => wf_items(items),
            ServerEventV::ItemView(d) => d.wf(),
            ServerEventV::Error(e) => e.wf(),
            _ => true,
        }
    }
}

/// How many of the nine client wire slots are populated.
pub open spec fn client_slots_populated(
    disconnect: Option<bool>,
    keepalive: Option<u64>,
    step: Option<bool>,
    open_inv: Option<bool>,
    drop_itm: Option<String>,
    inspect_itm: Option<String>,
    attck: Option<bool>,
    try_flee: Option<bool>,
    error: Option<ErrorData>,
) -> int {
    (if disconnect is Some {
        1int
    } else {
        0int
    }) + (if keepalive is Some {
        1int
    } else {
        0int
    }) + (if step is Some {
        1int
    } else {
        0int
    }) + (if open_inv is Some {
        1int
    } else {
        0int
    }) + (if drop_itm is Some {
        1int
    } else {
        0int
    }) + (if inspect_itm is Some {
        1int
    } else {
        0int
    }) + (if attck is Some {
        1int
    } else {
        0int
    }) + (if try_flee is Some {
        1int
    } else {
        0int
    }) + (if error is Some {
        1int
    } else {
        0int
    })
}

impl ClientEvent {
    /// Build a client event from the wire's nine slots. The union is
    /// strict: the event exists exactly when one slot is populated, and
    /// it is that slot's variant.
    pub fn new(
        disconnect: Option<bool>,
        keepalive: Option<u64>,
        step: Option<bool>,
        open_inv: Option<bool>,
        drop_itm: Option<String>,
        inspect_itm: Option<String>,
        attck: Option<bool>,
        try_flee: Option<bool>,
        error: Option<ErrorData>,
    ) -> (r: Option<ClientEvent>)
        ensures
            r is Some <==> client_slots_populated(
                disconnect,
                keepalive,
                step,
                open_inv,
                drop_itm,
                inspect_itm,
                attck,
                try_flee,
                error,
            ) == 1,
            r is Some ==> r == Some(
                if disconnect is Some {
                    ClientEvent::Disconnect
                } else if keepalive is Some {
                    ClientEvent::KeepAlive(keepalive->Some_0)
                } else if step is Some {
                    ClientEvent::Step
                } else if open_inv is Some {
                    ClientEvent::OpenInv
                } else if drop_itm is Some {
                    ClientEvent::DropItem(drop_itm->Some_0)
                } else if inspect_itm is Some {
                    ClientEvent::InspectItem(inspect_itm->Some_0)
                } else if attck is Some {
                    ClientEvent::Attack
                } else if try_flee is Some {
                    ClientEvent::TryFlee
                } else {
                    ClientEvent::Error(error->Some_0)
                },
            ),
    {
        let count: u32 = (if disconnect.is_some() {
            1u32
        } else {
            0u32
        }) + (if keepalive.is_some() {
            1
        } else {
            0
        }) + (if step.is_some() {
            1
        } else {
            0
        }) + (if open_inv.is_some() {
            1
        } else {
            0
        }) + (if drop_itm.is_some() {
            1
        } else {
            0
        }) + (if inspect_itm.is_some() {
            1
        } else {
            0
        }) + (if attck.is_some() {
            1
        } else {
            0
        }) + (if try_flee.is_some() {
            1
        } else {
            0
        }) + (if error.is_some() {
            1
        } else {
            0
        });
        if count != 1 {
            return None;
        }
        if disconnect.is_some() {
            Some(ClientEvent::Disconnect)
        } else if let Some(t) = keepalive {
            Some(ClientEvent::KeepAlive(t))
        } else if step.is_some() {
            Some(ClientEvent::Step)
        } else if open_inv.is_some() {
            Some(ClientEvent::OpenInv)
        } else if let Some(s) = drop_itm {
            Some(ClientEvent::DropItem(s))
        } else if let Some(s) = inspect_itm {
            Some(ClientEvent::InspectItem(s))
        } else if attck.is_some() {
            Some(ClientEvent::Attack)
        } else if try_flee.is_some() {
            Some(ClientEvent::TryFlee)
        } else {
            match error {
                Some(e) => Some(ClientEvent::Error(e)),
                None => None,
            }
        }
    }
}

/// How many of the eight server wire slots are populated.
pub open spec fn server_slots_populated(
    disconnect: Option<bool>,
    keepalive: Option<u64>,
    gain_exp: Option<u32>,
    find_item: Option<ItemData>,
    encounter: Option<EncounterData>,
    inventory: Option<Vec<ItemData>>,
    item_view: Option<ItemData>,
    error: Option<ErrorData>,
) -> int {
    (if disconnect is Some {
        1int
    } else {
        0int
    }) + (if keepalive is Some {
        1int
    } else {
        0int
    }) + (if gain_exp is Some {
        1int
    } else {
        0int
    }) + (if find_item is Some {
        1int
    } else {
        0int
    }) + (if encounter is Some {
        1int
    } else {
        0int
    }) + (if inventory is Some {
        1int
    } else {
        0int
    }) + (if item_view is Some {
        1int
    } else {
        0int
    }) + (if error is Some {
        1int
    } else {
        0int
    })
}

impl ServerEvent {
    /// Build a server event from the wire's eight slots. The union is
    /// strict: the event exists exactly when one slot is populated, and
    /// it is that slot's variant.
    pub fn new(
        disconnect: Option<bool>,
        keepalive: Option<u64>,
        gain_exp: Option<u32>,
        find_item: Option<ItemData>,
        encounter: Option<EncounterData>,
        inventory: Option<Vec<ItemData>>,
        item_view: Option<ItemData>,
        error: Option<ErrorData>,
    ) -> (r: Option<ServerEvent>)
        ensures
            r is Some <==> server_slots_populated(
                disconnect,
                keepalive,
                gain_exp,
                find_item,
                encounter,
                inventory,
                item_view,
                error,
            ) == 1,
            r is Some ==> r == Some(
                if disconnect is Some {
                    ServerEvent::Disconnect
                } else if keepalive is Some {
                    ServerEvent::Keepalive(keepalive->Some_0)
                } else if gain_exp is Some {
                    ServerEvent::GainExp(gain_exp->Some_0)
                } else if find_item is Some {
                    ServerEvent::FindItem(find_item->Some_0)
                } else if encounter is Some {
                    ServerEvent::Encounter(encounter->Some_0)
                } else if inventory is Some {
                    ServerEvent::Inventory(inventory->Some_0)
                } else if item_view is Some {
                    ServerEvent::ItemView(item_view->Some_0)
                } else {
                    ServerEvent::Error(error->Some_0)
                },
            ),
    {
        let count: u32 = (if disconnect.is_some() {
            1u32
        } else {
            0u32
        }) + (if keepalive.is_some() {
            1
        } else {
            0
        }) + (if gain_exp.is_some() {
            1
        } else {
            0
        }) + (if find_item.is_some() {
            1
        } else {
            0
        }) + (if encounter.is_some() {
            1
        } else {
            0
        }) + (if inventory.is_some() {
            1
        } else {
            0
        }) + (if item_view.is_some() {
            1
        } else {
            0
        }) + (if error.is_some() {
            1
        } else {
            0
        });
        if count != 1 {
            return None;
        }
        if disconnect.is_some() {
            Some(ServerEvent::Disconnect)
        } else if let Some(t) = keepalive {
            Some(ServerEvent::Keepalive(t))
        } else if let Some(x) = gain_exp {
            Some(ServerEvent::GainExp(x))
        } else if let Some(d) = find_item {
            Some(ServerEvent::FindItem(d))
        } else if let Some(e) = encounter {
            Some(ServerEvent::Encounter(e))
        } else if let Some(v) = inventory {
            Some(ServerEvent::Inventory(v))
        } else if let Some(d) = item_view {
            Some(ServerEvent::ItemView(d))
        } else {
            match error {
                Some(e) => Some(ServerEvent::Error(e)),
                None => None,
            }
        }
    }
}

} // verus!
