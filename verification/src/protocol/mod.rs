//! The Ultima Online wire protocol: packet types, their byte layouts, and the
//! framing, compression and encryption of the packet stream.

use vstd::prelude::*;

pub mod any;
pub mod character;
pub mod chat;
pub mod client_version;
pub mod compression;
pub mod encryption;
pub mod entity;
pub mod extended;
pub mod format;
pub mod input;
pub mod login;
pub mod map;
pub mod mobile;
pub mod sound;
pub mod stream;
pub mod ui;

pub use any::{AnyDowncast, AnyPacket, IntoAnyPacket, OutgoingPacket, PacketRegistration};
pub use character::{
    AttackRequest, CharacterAnimation, CharacterPredefinedAnimation, ProfileRequest, ProfileResponse, SkillEntries, SkillsResponse,
    SetAttackTarget, SkillEntry, SkillLock, SkillLockRequest, SkillsResponseKind, Swing,
};
pub use chat::{
    AsciiTextMessage, AsciiTextMessageRequest, LocalisedTextMessage, MessageKind, TextCommand, TextCommandKind,
    UnicodeTextMessage, UnicodeTextMessageRequest,
};
pub use client_version::{ClientFlags, ClientVersion, ExtendedClientVersion};
pub use compression::{huffman_compress, BitReader, BitWriter, HuffmanDecoder, HuffmanVecWriter};
pub use encryption::lobby_pass::{LobbyEncryptionKind, LobbyPass};
pub use encryption::twofish_pass::TwofishPass;
pub use encryption::{Encryption, EncryptionKind, EncryptionReader, GameEncryption};
pub use entity::{
    CharacterEquipment, DeleteEntity, EntityFlags, EntityRequest, EntityTooltip, UpsertEntityCharacter, UpsertEntityLegacy, EntityTooltipVersion, EquipmentSlot, UpsertEntityContained,
    UpsertContainerContents, UpsertEntityEquipped, UpsertEntityStats, UpsertEntityWorld, UpsertLocalPlayer,
};
pub use extended::{
    CloseGump, ContextMenu, ContextMenuEntries, ContextMenuEntry, ContextMenuFlags, ContextMenuResponse, ExtendedCommand,
    ExtendedCommandAos, ScreenSize,
};
pub use input::{
    DoubleClick, DropEntity, Move, MoveConfirm, MoveEntityReject, MoveReject, PickTarget, PickUpEntity,
    SingleClick, TargetType,
};
pub use map::{ChangeSeason, SetTime, ViewRange};
pub use mobile::{MobileRequest, REQUEST_MOBILE_SKILLS, REQUEST_MOBILE_STATUS};
pub use sound::{PlayMusic, PlaySoundEffect, SoundEffectKind};
pub use stream::{decode_frame, write_frame, WriterState};
pub use ui::{
    CompressedGumpLayout, GumpLayout, GumpResult, OpenChatWindow, OpenContainer, OpenGump, OpenGumpCompressed,
    OpenPaperDoll,
};
pub use login::{
    AccountLogin, BeginEnterWorld, CharacterFromList, CharacterList, ClientVersionRequest,
    CreateCharacter, CreateCharacterClassic, CreateCharacterEnhanced, FeatureFlags, GameServer,
    InitialCharacterVisual, InitialSkill, ServerList, StartingCity, SupportedFeatures, DeleteCharacter, EndEnterWorld, GameServerLogin, Ping, Seed,
    SelectCharacter, SelectGameServer, ShowPublicHouses, SwitchServer,
};

verus! {

/// Why a packet could not be decoded or encoded.
#[derive(Debug, Clone, Copy, PartialEq, Eq, Structural)]
pub enum ProtocolError {
    /// The payload ended before the field being read.
    UnexpectedEof,
    /// A text field is not valid UTF-8.
    InvalidUtf8,
    /// A field holds a value outside the set the protocol defines.
    InvalidValue,
    /// The packet cannot be sent in this direction or in this form.
    Unsupported,
}

/// A packet type: its kind byte, its length, and its payload codec.
///
/// The payload is what follows the kind byte, and for packets without a fixed
/// length also the two length bytes.
pub trait Packet: Sized {
    /// The kind byte that introduces this packet on the wire.
    spec fn spec_packet_kind() -> u8;

    /// The whole length, kind byte included, of packets of this type, when it
    /// is fixed for the client version.
    spec fn spec_fixed_length(client_version: ClientVersion) -> Option<usize>;

    /// The payload bytes `encode` writes for this packet.
    spec fn wire(&self, client_version: ClientVersion, to_client: bool) -> Seq<u8>;

    /// Whether `encode` succeeds on this packet.
    spec fn can_encode(&self, client_version: ClientVersion, to_client: bool) -> bool;

    /// The error decoding `payload` stops with, or `None` when it succeeds.
    spec fn decode_error(
        client_version: ClientVersion,
        from_client: bool,
        payload: Seq<u8>,
    ) -> Option<ProtocolError>;

    /// `p` is what a successful decode of `payload` returns: every field of
    /// `p` is determined by this relation.
    spec fn decodes_to(
        client_version: ClientVersion,
        from_client: bool,
        payload: Seq<u8>,
        p: Self,
    ) -> bool;

    /// The packets whose encoding decodes back to them: those whose fields
    /// fit in the space the layout gives them.
    spec fn roundtrips(&self, client_version: ClientVersion, to_client: bool) -> bool;

    /// What `encode` has written when it fails. Most packets check their
    /// fields before they write, and have then written nothing.
    open spec fn wire_on_error(&self, client_version: ClientVersion, to_client: bool) -> Seq<u8> {
        Seq::empty()
    }

    fn packet_kind() -> (r: u8)
        ensures
            r == Self::spec_packet_kind(),
    ;

    fn fixed_length(client_version: ClientVersion) -> (r: Option<usize>)
        ensures
            r == Self::spec_fixed_length(client_version),
    ;

    fn decode(client_version: ClientVersion, from_client: bool, payload: &[u8]) -> (r: Result<
        Self,
        ProtocolError,
    >)
        ensures
            match r {
                Ok(p) => Self::decode_error(client_version, from_client, payload@) is None
                    && Self::decodes_to(client_version, from_client, payload@, p),
                Err(e) => Self::decode_error(client_version, from_client, payload@) == Some(e),
            },
    ;

    fn encode(&self, client_version: ClientVersion, to_client: bool, writer: &mut Vec<u8>) -> (r:
        Result<(), ProtocolError>)
        ensures
            r is Ok <==> self.can_encode(client_version, to_client),
            r is Ok ==> final(writer)@ == old(writer)@ + self.wire(client_version, to_client),
            r is Err ==> final(writer)@ == old(writer)@ + self.wire_on_error(client_version, to_client),
    ;

    /// What `encode` writes, `decode` reads back: the bytes decode without
    /// error, to this very packet.
    proof fn lemma_roundtrip(&self, client_version: ClientVersion, to_client: bool)
        requires
            self.can_encode(client_version, to_client),
            self.roundtrips(client_version, to_client),
        ensures
            Self::decode_error(client_version, !to_client, self.wire(client_version, to_client))
                is None,
            Self::decodes_to(
                client_version,
                !to_client,
                self.wire(client_version, to_client),
                *self,
            ),
    ;
}

} // verus!
