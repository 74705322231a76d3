//! One type for every packet the protocol knows, and the lookup from a
//! kind byte to the packet type it introduces.

use std::sync::Arc;

use vstd::prelude::*;

use crate::protocol::{
    Seed,
    AccountLogin,
    ServerList,
    SelectGameServer,
    SwitchServer,
    GameServerLogin,
    SupportedFeatures,
    CharacterList,
    CreateCharacterClassic,
    CreateCharacterEnhanced,
    DeleteCharacter,
    SelectCharacter,
    ClientVersionRequest,
    BeginEnterWorld,
    EndEnterWorld,
    ShowPublicHouses,
    Ping,
    ExtendedCommand,
    ExtendedCommandAos,
    Move,
    MoveConfirm,
    MoveReject,
    SingleClick,
    DoubleClick,
    PickUpEntity,
    DropEntity,
    MoveEntityReject,
    PickTarget,
    OpenChatWindow,
    OpenPaperDoll,
    OpenContainer,
    OpenGump,
    OpenGumpCompressed,
    GumpResult,
    AsciiTextMessage,
    UnicodeTextMessage,
    LocalisedTextMessage,
    AsciiTextMessageRequest,
    UnicodeTextMessageRequest,
    PlayMusic,
    PlaySoundEffect,
    SetTime,
    ChangeSeason,
    ViewRange,
    EntityRequest,
    UpsertEntityLegacy,
    UpsertEntityWorld,
    DeleteEntity,
    UpsertLocalPlayer,
    UpsertEntityCharacter,
    UpsertEntityEquipped,
    UpsertEntityContained,
    UpsertContainerContents,
    EntityTooltipVersion,
    EntityTooltip,
    UpsertEntityStats,
    AttackRequest,
    SetAttackTarget,
    Swing,
    CharacterAnimation,
    CharacterPredefinedAnimation,
};
use crate::protocol::{ClientVersion, Packet, ProtocolError};

verus! {

/// A packet of any of the known types.
#[derive(Debug, Clone)]
pub enum AnyPacket {
    Seed(Seed),
    AccountLogin(AccountLogin),
    ServerList(ServerList),
    SelectGameServer(SelectGameServer),
    SwitchServer(SwitchServer),
    GameServerLogin(GameServerLogin),
    SupportedFeatures(SupportedFeatures),
    CharacterList(CharacterList),
    CreateCharacterClassic(CreateCharacterClassic),
    CreateCharacterEnhanced(CreateCharacterEnhanced),
    DeleteCharacter(DeleteCharacter),
    SelectCharacter(SelectCharacter),
    ClientVersionRequest(ClientVersionRequest),
    BeginEnterWorld(BeginEnterWorld),
    EndEnterWorld(EndEnterWorld),
    ShowPublicHouses(ShowPublicHouses),
    Ping(Ping),
    ExtendedCommand(ExtendedCommand),
    ExtendedCommandAos(ExtendedCommandAos),
    Move(Move),
    MoveConfirm(MoveConfirm),
    MoveReject(MoveReject),
    SingleClick(SingleClick),
    DoubleClick(DoubleClick),
    PickUpEntity(PickUpEntity),
    DropEntity(DropEntity),
    MoveEntityReject(MoveEntityReject),
    PickTarget(PickTarget),
    OpenChatWindow(OpenChatWindow),
    OpenPaperDoll(OpenPaperDoll),
    OpenContainer(OpenContainer),
    OpenGump(OpenGump),
    OpenGumpCompressed(OpenGumpCompressed),
    GumpResult(GumpResult),
    AsciiTextMessage(AsciiTextMessage),
    UnicodeTextMessage(UnicodeTextMessage),
    LocalisedTextMessage(LocalisedTextMessage),
    AsciiTextMessageRequest(AsciiTextMessageRequest),
    UnicodeTextMessageRequest(UnicodeTextMessageRequest),
    PlayMusic(PlayMusic),
    PlaySoundEffect(PlaySoundEffect),
    SetTime(SetTime),
    ChangeSeason(ChangeSeason),
    ViewRange(ViewRange),
    EntityRequest(EntityRequest),
    UpsertEntityLegacy(UpsertEntityLegacy),
    UpsertEntityWorld(UpsertEntityWorld),
    DeleteEntity(DeleteEntity),
    UpsertLocalPlayer(UpsertLocalPlayer),
    UpsertEntityCharacter(UpsertEntityCharacter),
    UpsertEntityEquipped(UpsertEntityEquipped),
    UpsertEntityContained(UpsertEntityContained),
    UpsertContainerContents(UpsertContainerContents),
    EntityTooltipVersion(EntityTooltipVersion),
    EntityTooltip(EntityTooltip),
    UpsertEntityStats(UpsertEntityStats),
    AttackRequest(AttackRequest),
    SetAttackTarget(SetAttackTarget),
    Swing(Swing),
    CharacterAnimation(CharacterAnimation),
    CharacterPredefinedAnimation(CharacterPredefinedAnimation),
}

/// The packet type that a kind byte introduces, with its length and decoder.
#[derive(Debug, Clone, Copy, PartialEq, Eq, Structural)]
pub enum PacketRegistration {
    Seed,
    AccountLogin,
    ServerList,
    SelectGameServer,
    SwitchServer,
    GameServerLogin,
    SupportedFeatures,
    CharacterList,
    CreateCharacterClassic,
    CreateCharacterEnhanced,
    DeleteCharacter,
    SelectCharacter,
    ClientVersionRequest,
    BeginEnterWorld,
    EndEnterWorld,
    ShowPublicHouses,
    Ping,
    ExtendedCommand,
    ExtendedCommandAos,
    Move,
    MoveConfirm,
    MoveReject,
    SingleClick,
    DoubleClick,
    PickUpEntity,
    DropEntity,
    MoveEntityReject,
    PickTarget,
    OpenChatWindow,
    OpenPaperDoll,
    OpenContainer,
    OpenGump,
    OpenGumpCompressed,
    GumpResult,
    AsciiTextMessage,
    UnicodeTextMessage,
    LocalisedTextMessage,
    AsciiTextMessageRequest,
    UnicodeTextMessageRequest,
    PlayMusic,
    PlaySoundEffect,
    SetTime,
    ChangeSeason,
    ViewRange,
    EntityRequest,
    UpsertEntityLegacy,
    UpsertEntityWorld,
    DeleteEntity,
    UpsertLocalPlayer,
    UpsertEntityCharacter,
    UpsertEntityEquipped,
    UpsertEntityContained,
    UpsertContainerContents,
    EntityTooltipVersion,
    EntityTooltip,
    UpsertEntityStats,
    AttackRequest,
    SetAttackTarget,
    Swing,
    CharacterAnimation,
    CharacterPredefinedAnimation,
}

impl PacketRegistration {
    /// The first type, in the order of `AnyPacket`, whose kind byte is `kind`.
    pub open spec fn spec_for_kind(kind: u8) -> Option<PacketRegistration> {
        if kind == Seed::spec_packet_kind() {
            Some(PacketRegistration::Seed)
        } else if kind == AccountLogin::spec_packet_kind() {
            Some(PacketRegistration::AccountLogin)
        } else if kind == ServerList::spec_packet_kind() {
            Some(PacketRegistration::ServerList)
        } else if kind == SelectGameServer::spec_packet_kind() {
            Some(PacketRegistration::SelectGameServer)
        } else if kind == SwitchServer::spec_packet_kind() {
            Some(PacketRegistration::SwitchServer)
        } else if kind == GameServerLogin::spec_packet_kind() {
            Some(PacketRegistration::GameServerLogin)
        } else if kind == SupportedFeatures::spec_packet_kind() {
            Some(PacketRegistration::SupportedFeatures)
        } else if kind == CharacterList::spec_packet_kind() {
            Some(PacketRegistration::CharacterList)
        } else if kind == CreateCharacterClassic::spec_packet_kind() {
            Some(PacketRegistration::CreateCharacterClassic)
        } else if kind == CreateCharacterEnhanced::spec_packet_kind() {
            Some(PacketRegistration::CreateCharacterEnhanced)
        } else if kind == DeleteCharacter::spec_packet_kind() {
            Some(PacketRegistration::DeleteCharacter)
        } else if kind == SelectCharacter::spec_packet_kind() {
            Some(PacketRegistration::SelectCharacter)
        } else if kind == ClientVersionRequest::spec_packet_kind() {
            Some(PacketRegistration::ClientVersionRequest)
        } else if kind == BeginEnterWorld::spec_packet_kind() {
            Some(PacketRegistration::BeginEnterWorld)
        } else if kind == EndEnterWorld::spec_packet_kind() {
            Some(PacketRegistration::EndEnterWorld)
        } else if kind == ShowPublicHouses::spec_packet_kind() {
            Some(PacketRegistration::ShowPublicHouses)
        } else if kind == Ping::spec_packet_kind() {
            Some(PacketRegistration::Ping)
        } else if kind == ExtendedCommand::spec_packet_kind() {
            Some(PacketRegistration::ExtendedCommand)
        } else if kind == ExtendedCommandAos::spec_packet_kind() {
            Some(PacketRegistration::ExtendedCommandAos)
        } else if kind == Move::spec_packet_kind() {
            Some(PacketRegistration::Move)
        } else if kind == MoveConfirm::spec_packet_kind() {
            Some(PacketRegistration::MoveConfirm)
        } else if kind == MoveReject::spec_packet_kind() {
            Some(PacketRegistration::MoveReject)
        } else if kind == SingleClick::spec_packet_kind() {
            Some(PacketRegistration::SingleClick)
        } else if kind == DoubleClick::spec_packet_kind() {
            Some(PacketRegistration::DoubleClick)
        } else if kind == PickUpEntity::spec_packet_kind() {
            Some(PacketRegistration::PickUpEntity)
        } else if kind == DropEntity::spec_packet_kind() {
            Some(PacketRegistration::DropEntity)
        } else if kind == MoveEntityReject::spec_packet_kind() {
            Some(PacketRegistration::MoveEntityReject)
        } else if kind == PickTarget::spec_packet_kind() {
            Some(PacketRegistration::PickTarget)
        } else if kind == OpenChatWindow::spec_packet_kind() {
            Some(PacketRegistration::OpenChatWindow)
        } else if kind == OpenPaperDoll::spec_packet_kind() {
            Some(PacketRegistration::OpenPaperDoll)
        } else if kind == OpenContainer::spec_packet_kind() {
            Some(PacketRegistration::OpenContainer)
        } else if kind == OpenGump::spec_packet_kind() {
            Some(PacketRegistration::OpenGump)
        } else if kind == OpenGumpCompressed::spec_packet_kind() {
            Some(PacketRegistration::OpenGumpCompressed)
        } else if kind == GumpResult::spec_packet_kind() {
            Some(PacketRegistration::GumpResult)
        } else if kind == AsciiTextMessage::spec_packet_kind() {
            Some(PacketRegistration::AsciiTextMessage)
        } else if kind == UnicodeTextMessage::spec_packet_kind() {
            Some(PacketRegistration::UnicodeTextMessage)
        } else if kind == LocalisedTextMessage::spec_packet_kind() {
            Some(PacketRegistration::LocalisedTextMessage)
        } else if kind == AsciiTextMessageRequest::spec_packet_kind() {
            Some(PacketRegistration::AsciiTextMessageRequest)
        } else if kind == UnicodeTextMessageRequest::spec_packet_kind() {
            Some(PacketRegistration::UnicodeTextMessageRequest)
        } else if kind == PlayMusic::spec_packet_kind() {
            Some(PacketRegistration::PlayMusic)
        } else if kind == PlaySoundEffect::spec_packet_kind() {
            Some(PacketRegistration::PlaySoundEffect)
        } else if kind == SetTime::spec_packet_kind() {
            Some(PacketRegistration::SetTime)
        } else if kind == ChangeSeason::spec_packet_kind() {
            Some(PacketRegistration::ChangeSeason)
        } else if kind == ViewRange::spec_packet_kind() {
            Some(PacketRegistration::ViewRange)
        } else if kind == EntityRequest::spec_packet_kind() {
            Some(PacketRegistration::EntityRequest)
        } else if kind == UpsertEntityLegacy::spec_packet_kind() {
            Some(PacketRegistration::UpsertEntityLegacy)
        } else if kind == UpsertEntityWorld::spec_packet_kind() {
            Some(PacketRegistration::UpsertEntityWorld)
        } else if kind == DeleteEntity::spec_packet_kind() {
            Some(PacketRegistration::DeleteEntity)
        } else if kind == UpsertLocalPlayer::spec_packet_kind() {
            Some(PacketRegistration::UpsertLocalPlayer)
        } else if kind == UpsertEntityCharacter::spec_packet_kind() {
            Some(PacketRegistration::UpsertEntityCharacter)
        } else if kind == UpsertEntityEquipped::spec_packet_kind() {
            Some(PacketRegistration::UpsertEntityEquipped)
        } else if kind == UpsertEntityContained::spec_packet_kind() {
            Some(PacketRegistration::UpsertEntityContained)
        } else if kind == UpsertContainerContents::spec_packet_kind() {
            Some(PacketRegistration::UpsertContainerContents)
        } else if kind == EntityTooltipVersion::spec_packet_kind() {
            Some(PacketRegistration::EntityTooltipVersion)
        } else if kind == EntityTooltip::spec_packet_kind() {
            Some(PacketRegistration::EntityTooltip)
        } else if kind == UpsertEntityStats::spec_packet_kind() {
            Some(PacketRegistration::UpsertEntityStats)
        } else if kind == AttackRequest::spec_packet_kind() {
            Some(PacketRegistration::AttackRequest)
        } else if kind == SetAttackTarget::spec_packet_kind() {
            Some(PacketRegistration::SetAttackTarget)
        } else if kind == Swing::spec_packet_kind() {
            Some(PacketRegistration::Swing)
        } else if kind == CharacterAnimation::spec_packet_kind() {
            Some(PacketRegistration::CharacterAnimation)
        } else if kind == CharacterPredefinedAnimation::spec_packet_kind() {
            Some(PacketRegistration::CharacterPredefinedAnimation)
        } else {
            None
        }
    }

    /// The type that the kind byte introduces, if any.
    pub fn for_kind(kind: u8) -> (r: Option<PacketRegistration>)
        ensures
            r == PacketRegistration::spec_for_kind(kind),
    {
        match kind {
            0xef => Some(PacketRegistration::Seed),
            0x80 => Some(PacketRegistration::AccountLogin),
            0xa8 => Some(PacketRegistration::ServerList),
            0xa0 => Some(PacketRegistration::SelectGameServer),
            0x8c => Some(PacketRegistration::SwitchServer),
            0x91 => Some(PacketRegistration::GameServerLogin),
            0xb9 => Some(PacketRegistration::SupportedFeatures),
            0xa9 => Some(PacketRegistration::CharacterList),
            0x00 => Some(PacketRegistration::CreateCharacterClassic),
            0xf8 => Some(PacketRegistration::CreateCharacterEnhanced),
            0x83 => Some(PacketRegistration::DeleteCharacter),
            0x5d => Some(PacketRegistration::SelectCharacter),
            0xbd => Some(PacketRegistration::ClientVersionRequest),
            0x1b => Some(PacketRegistration::BeginEnterWorld),
            0x55 => Some(PacketRegistration::EndEnterWorld),
            0xfb => Some(PacketRegistration::ShowPublicHouses),
            0x73 => Some(PacketRegistration::Ping),
            0xbf => Some(PacketRegistration::ExtendedCommand),
            0xd7 => Some(PacketRegistration::ExtendedCommandAos),
            0x02 => Some(PacketRegistration::Move),
            0x22 => Some(PacketRegistration::MoveConfirm),
            0x21 => Some(PacketRegistration::MoveReject),
            0x09 => Some(PacketRegistration::SingleClick),
            0x06 => Some(PacketRegistration::DoubleClick),
            0x07 => Some(PacketRegistration::PickUpEntity),
            0x08 => Some(PacketRegistration::DropEntity),
            0x27 => Some(PacketRegistration::MoveEntityReject),
            0x6c => Some(PacketRegistration::PickTarget),
            0xb5 => Some(PacketRegistration::OpenChatWindow),
            0x88 => Some(PacketRegistration::OpenPaperDoll),
            0x24 => Some(PacketRegistration::OpenContainer),
            0xb0 => Some(PacketRegistration::OpenGump),
            0xdd => Some(PacketRegistration::OpenGumpCompressed),
            0xb1 => Some(PacketRegistration::GumpResult),
            0x1c => Some(PacketRegistration::AsciiTextMessage),
            0xae => Some(PacketRegistration::UnicodeTextMessage),
            0xc1 => Some(PacketRegistration::LocalisedTextMessage),
            0x03 => Some(PacketRegistration::AsciiTextMessageRequest),
            0xad => Some(PacketRegistration::UnicodeTextMessageRequest),
            0x6d => Some(PacketRegistration::PlayMusic),
            0x54 => Some(PacketRegistration::PlaySoundEffect),
            0x5b => Some(PacketRegistration::SetTime),
            0xbc => Some(PacketRegistration::ChangeSeason),
            0xc8 => Some(PacketRegistration::ViewRange),
            0x34 => Some(PacketRegistration::EntityRequest),
            0x1a => Some(PacketRegistration::UpsertEntityLegacy),
            0xf3 => Some(PacketRegistration::UpsertEntityWorld),
            0x1d => Some(PacketRegistration::DeleteEntity),
            0x20 => Some(PacketRegistration::UpsertLocalPlayer),
            0x78 => Some(PacketRegistration::UpsertEntityCharacter),
            0x2e => Some(PacketRegistration::UpsertEntityEquipped),
            0x25 => Some(PacketRegistration::UpsertEntityContained),
            0x3c => Some(PacketRegistration::UpsertContainerContents),
            0xdc => Some(PacketRegistration::EntityTooltipVersion),
            0xd6 => Some(PacketRegistration::EntityTooltip),
            0x11 => Some(PacketRegistration::UpsertEntityStats),
            0x05 => Some(PacketRegistration::AttackRequest),
            0xaa => Some(PacketRegistration::SetAttackTarget),
            0x2f => Some(PacketRegistration::Swing),
            0x6e => Some(PacketRegistration::CharacterAnimation),
            0xe2 => Some(PacketRegistration::CharacterPredefinedAnimation),
            _ => None,
        }
    }

    pub open spec fn spec_packet_kind(self) -> u8 {
        match self {
            PacketRegistration::Seed => Seed::spec_packet_kind(),
            PacketRegistration::AccountLogin => AccountLogin::spec_packet_kind(),
            PacketRegistration::ServerList => ServerList::spec_packet_kind(),
            PacketRegistration::SelectGameServer => SelectGameServer::spec_packet_kind(),
            PacketRegistration::SwitchServer => SwitchServer::spec_packet_kind(),
            PacketRegistration::GameServerLogin => GameServerLogin::spec_packet_kind(),
            PacketRegistration::SupportedFeatures => SupportedFeatures::spec_packet_kind(),
            PacketRegistration::CharacterList => CharacterList::spec_packet_kind(),
            PacketRegistration::CreateCharacterClassic => CreateCharacterClassic::spec_packet_kind(),
            PacketRegistration::CreateCharacterEnhanced => CreateCharacterEnhanced::spec_packet_kind(),
            PacketRegistration::DeleteCharacter => DeleteCharacter::spec_packet_kind(),
            PacketRegistration::SelectCharacter => SelectCharacter::spec_packet_kind(),
            PacketRegistration::ClientVersionRequest => ClientVersionRequest::spec_packet_kind(),
            PacketRegistration::BeginEnterWorld => BeginEnterWorld::spec_packet_kind(),
            PacketRegistration::EndEnterWorld => EndEnterWorld::spec_packet_kind(),
            PacketRegistration::ShowPublicHouses => ShowPublicHouses::spec_packet_kind(),
            PacketRegistration::Ping => Ping::spec_packet_kind(),
            PacketRegistration::ExtendedCommand => ExtendedCommand::spec_packet_kind(),
            PacketRegistration::ExtendedCommandAos => ExtendedCommandAos::spec_packet_kind(),
            PacketRegistration::Move => Move::spec_packet_kind(),
            PacketRegistration::MoveConfirm => MoveConfirm::spec_packet_kind(),
            PacketRegistration::MoveReject => MoveReject::spec_packet_kind(),
            PacketRegistration::SingleClick => SingleClick::spec_packet_kind(),
            PacketRegistration::DoubleClick => DoubleClick::spec_packet_kind(),
            PacketRegistration::PickUpEntity => PickUpEntity::spec_packet_kind(),
            PacketRegistration::DropEntity => DropEntity::spec_packet_kind(),
            PacketRegistration::MoveEntityReject => MoveEntityReject::spec_packet_kind(),
            PacketRegistration::PickTarget => PickTarget::spec_packet_kind(),
            PacketRegistration::OpenChatWindow => OpenChatWindow::spec_packet_kind(),
            PacketRegistration::OpenPaperDoll => OpenPaperDoll::spec_packet_kind(),
            PacketRegistration::OpenContainer => OpenContainer::spec_packet_kind(),
            PacketRegistration::OpenGump => OpenGump::spec_packet_kind(),
            PacketRegistration::OpenGumpCompressed => OpenGumpCompressed::spec_packet_kind(),
            PacketRegistration::GumpResult => GumpResult::spec_packet_kind(),
            PacketRegistration::AsciiTextMessage => AsciiTextMessage::spec_packet_kind(),
            PacketRegistration::UnicodeTextMessage => UnicodeTextMessage::spec_packet_kind(),
            PacketRegistration::LocalisedTextMessage => LocalisedTextMessage::spec_packet_kind(),
            PacketRegistration::AsciiTextMessageRequest => AsciiTextMessageRequest::spec_packet_kind(),
            PacketRegistration::UnicodeTextMessageRequest => UnicodeTextMessageRequest::spec_packet_kind(),
            PacketRegistration::PlayMusic => PlayMusic::spec_packet_kind(),
            PacketRegistration::PlaySoundEffect => PlaySoundEffect::spec_packet_kind(),
            PacketRegistration::SetTime => SetTime::spec_packet_kind(),
            PacketRegistration::ChangeSeason => ChangeSeason::spec_packet_kind(),
            PacketRegistration::ViewRange => ViewRange::spec_packet_kind(),
            PacketRegistration::EntityRequest => EntityRequest::spec_packet_kind(),
            PacketRegistration::UpsertEntityLegacy => UpsertEntityLegacy::spec_packet_kind(),
            PacketRegistration::UpsertEntityWorld => UpsertEntityWorld::spec_packet_kind(),
            PacketRegistration::DeleteEntity => DeleteEntity::spec_packet_kind(),
            PacketRegistration::UpsertLocalPlayer => UpsertLocalPlayer::spec_packet_kind(),
            PacketRegistration::UpsertEntityCharacter => UpsertEntityCharacter::spec_packet_kind(),
            PacketRegistration::UpsertEntityEquipped => UpsertEntityEquipped::spec_packet_kind(),
            PacketRegistration::UpsertEntityContained => UpsertEntityContained::spec_packet_kind(),
            PacketRegistration::UpsertContainerContents => UpsertContainerContents::spec_packet_kind(),
            PacketRegistration::EntityTooltipVersion => EntityTooltipVersion::spec_packet_kind(),
            PacketRegistration::EntityTooltip => EntityTooltip::spec_packet_kind(),
            PacketRegistration::UpsertEntityStats => UpsertEntityStats::spec_packet_kind(),
            PacketRegistration::AttackRequest => AttackRequest::spec_packet_kind(),
            PacketRegistration::SetAttackTarget => SetAttackTarget::spec_packet_kind(),
            PacketRegistration::Swing => Swing::spec_packet_kind(),
            PacketRegistration::CharacterAnimation => CharacterAnimation::spec_packet_kind(),
            PacketRegistration::CharacterPredefinedAnimation => CharacterPredefinedAnimation::spec_packet_kind(),
        }
    }

    pub open spec fn spec_fixed_length(self, client_version: ClientVersion) -> Option<usize> {
        match self {
            PacketRegistration::Seed => Seed::spec_fixed_length(client_version),
            PacketRegistration::AccountLogin => AccountLogin::spec_fixed_length(client_version),
            PacketRegistration::ServerList => ServerList::spec_fixed_length(client_version),
            PacketRegistration::SelectGameServer => SelectGameServer::spec_fixed_length(client_version),
            PacketRegistration::SwitchServer => SwitchServer::spec_fixed_length(client_version),
            PacketRegistration::GameServerLogin => GameServerLogin::spec_fixed_length(client_version),
            PacketRegistration::SupportedFeatures => SupportedFeatures::spec_fixed_length(client_version),
            PacketRegistration::CharacterList => CharacterList::spec_fixed_length(client_version),
            PacketRegistration::CreateCharacterClassic => CreateCharacterClassic::spec_fixed_length(client_version),
            PacketRegistration::CreateCharacterEnhanced => CreateCharacterEnhanced::spec_fixed_length(client_version),
            PacketRegistration::DeleteCharacter => DeleteCharacter::spec_fixed_length(client_version),
            PacketRegistration::SelectCharacter => SelectCharacter::spec_fixed_length(client_version),
            PacketRegistration::ClientVersionRequest => ClientVersionRequest::spec_fixed_length(client_version),
            PacketRegistration::BeginEnterWorld => BeginEnterWorld::spec_fixed_length(client_version),
            PacketRegistration::EndEnterWorld => EndEnterWorld::spec_fixed_length(client_version),
            PacketRegistration::ShowPublicHouses => ShowPublicHouses::spec_fixed_length(client_version),
            PacketRegistration::Ping => Ping::spec_fixed_length(client_version),
            PacketRegistration::ExtendedCommand => ExtendedCommand::spec_fixed_length(client_version),
            PacketRegistration::ExtendedCommandAos => ExtendedCommandAos::spec_fixed_length(client_version),
            PacketRegistration::Move => Move::spec_fixed_length(client_version),
            PacketRegistration::MoveConfirm => MoveConfirm::spec_fixed_length(client_version),
            PacketRegistration::MoveReject => MoveReject::spec_fixed_length(client_version),
            PacketRegistration::SingleClick => SingleClick::spec_fixed_length(client_version),
            PacketRegistration::DoubleClick => DoubleClick::spec_fixed_length(client_version),
            PacketRegistration::PickUpEntity => PickUpEntity::spec_fixed_length(client_version),
            PacketRegistration::DropEntity => DropEntity::spec_fixed_length(client_version),
            PacketRegistration::MoveEntityReject => MoveEntityReject::spec_fixed_length(client_version),
            PacketRegistration::PickTarget => PickTarget::spec_fixed_length(client_version),
            PacketRegistration::OpenChatWindow => OpenChatWindow::spec_fixed_length(client_version),
            PacketRegistration::OpenPaperDoll => OpenPaperDoll::spec_fixed_length(client_version),
            PacketRegistration::OpenContainer => OpenContainer::spec_fixed_length(client_version),
            PacketRegistration::OpenGump => OpenGump::spec_fixed_length(client_version),
            PacketRegistration::OpenGumpCompressed => OpenGumpCompressed::spec_fixed_length(client_version),
            PacketRegistration::GumpResult => GumpResult::spec_fixed_length(client_version),
            PacketRegistration::AsciiTextMessage => AsciiTextMessage::spec_fixed_length(client_version),
            PacketRegistration::UnicodeTextMessage => UnicodeTextMessage::spec_fixed_length(client_version),
            PacketRegistration::LocalisedTextMessage => LocalisedTextMessage::spec_fixed_length(client_version),
            PacketRegistration::AsciiTextMessageRequest => AsciiTextMessageRequest::spec_fixed_length(client_version),
            PacketRegistration::UnicodeTextMessageRequest => UnicodeTextMessageRequest::spec_fixed_length(client_version),
            PacketRegistration::PlayMusic => PlayMusic::spec_fixed_length(client_version),
            PacketRegistration::PlaySoundEffect => PlaySoundEffect::spec_fixed_length(client_version),
            PacketRegistration::SetTime => SetTime::spec_fixed_length(client_version),
            PacketRegistration::ChangeSeason => ChangeSeason::spec_fixed_length(client_version),
            PacketRegistration::ViewRange => ViewRange::spec_fixed_length(client_version),
            PacketRegistration::EntityRequest => EntityRequest::spec_fixed_length(client_version),
            PacketRegistration::UpsertEntityLegacy => UpsertEntityLegacy::spec_fixed_length(client_version),
            PacketRegistration::UpsertEntityWorld => UpsertEntityWorld::spec_fixed_length(client_version),
            PacketRegistration::DeleteEntity => DeleteEntity::spec_fixed_length(client_version),
            PacketRegistration::UpsertLocalPlayer => UpsertLocalPlayer::spec_fixed_length(client_version),
            PacketRegistration::UpsertEntityCharacter => UpsertEntityCharacter::spec_fixed_length(client_version),
            PacketRegistration::UpsertEntityEquipped => UpsertEntityEquipped::spec_fixed_length(client_version),
            PacketRegistration::UpsertEntityContained => UpsertEntityContained::spec_fixed_length(client_version),
            PacketRegistration::UpsertContainerContents => UpsertContainerContents::spec_fixed_length(client_version),
            PacketRegistration::EntityTooltipVersion => EntityTooltipVersion::spec_fixed_length(client_version),
            PacketRegistration::EntityTooltip => EntityTooltip::spec_fixed_length(client_version),
            PacketRegistration::UpsertEntityStats => UpsertEntityStats::spec_fixed_length(client_version),
            PacketRegistration::AttackRequest => AttackRequest::spec_fixed_length(client_version),
            PacketRegistration::SetAttackTarget => SetAttackTarget::spec_fixed_length(client_version),
            PacketRegistration::Swing => Swing::spec_fixed_length(client_version),
            PacketRegistration::CharacterAnimation => CharacterAnimation::spec_fixed_length(client_version),
            PacketRegistration::CharacterPredefinedAnimation => CharacterPredefinedAnimation::spec_fixed_length(client_version),
        }
    }

    #[verifier::opaque]
    pub open spec fn spec_decode_error(self, client_version: ClientVersion, from_client: bool, payload: Seq<u8>) -> Option<ProtocolError> {
        match self {
            PacketRegistration::Seed => Seed::decode_error(client_version, from_client, payload),
            PacketRegistration::AccountLogin => AccountLogin::decode_error(client_version, from_client, payload),
            PacketRegistration::ServerList => ServerList::decode_error(client_version, from_client, payload),
            PacketRegistration::SelectGameServer => SelectGameServer::decode_error(client_version, from_client, payload),
            PacketRegistration::SwitchServer => SwitchServer::decode_error(client_version, from_client, payload),
            PacketRegistration::GameServerLogin => GameServerLogin::decode_error(client_version, from_client, payload),
            PacketRegistration::SupportedFeatures => SupportedFeatures::decode_error(client_version, from_client, payload),
            PacketRegistration::CharacterList => CharacterList::decode_error(client_version, from_client, payload),
            PacketRegistration::CreateCharacterClassic => CreateCharacterClassic::decode_error(client_version, from_client, payload),
            PacketRegistration::CreateCharacterEnhanced => CreateCharacterEnhanced::decode_error(client_version, from_client, payload),
            PacketRegistration::DeleteCharacter => DeleteCharacter::decode_error(client_version, from_client, payload),
            PacketRegistration::SelectCharacter => SelectCharacter::decode_error(client_version, from_client, payload),
            PacketRegistration::ClientVersionRequest => ClientVersionRequest::decode_error(client_version, from_client, payload),
            PacketRegistration::BeginEnterWorld => BeginEnterWorld::decode_error(client_version, from_client, payload),
            PacketRegistration::EndEnterWorld => EndEnterWorld::decode_error(client_version, from_client, payload),
            PacketRegistration::ShowPublicHouses => ShowPublicHouses::decode_error(client_version, from_client, payload),
            PacketRegistration::Ping => Ping::decode_error(client_version, from_client, payload),
            PacketRegistration::ExtendedCommand => ExtendedCommand::decode_error(client_version, from_client, payload),
            PacketRegistration::ExtendedCommandAos => ExtendedCommandAos::decode_error(client_version, from_client, payload),
            PacketRegistration::Move => Move::decode_error(client_version, from_client, payload),
            PacketRegistration::MoveConfirm => MoveConfirm::decode_error(client_version, from_client, payload),
            PacketRegistration::MoveReject => MoveReject::decode_error(client_version, from_client, payload),
            PacketRegistration::SingleClick => SingleClick::decode_error(client_version, from_client, payload),
            PacketRegistration::DoubleClick => DoubleClick::decode_error(client_version, from_client, payload),
            PacketRegistration::PickUpEntity => PickUpEntity::decode_error(client_version, from_client, payload),
            PacketRegistration::DropEntity => DropEntity::decode_error(client_version, from_client, payload),
            PacketRegistration::MoveEntityReject => MoveEntityReject::decode_error(client_version, from_client, payload),
            PacketRegistration::PickTarget => PickTarget::decode_error(client_version, from_client, payload),
            PacketRegistration::OpenChatWindow => OpenChatWindow::decode_error(client_version, from_client, payload),
            PacketRegistration::OpenPaperDoll => OpenPaperDoll::decode_error(client_version, from_client, payload),
            PacketRegistration::OpenContainer => OpenContainer::decode_error(client_version, from_client, payload),
            PacketRegistration::OpenGump => OpenGump::decode_error(client_version, from_client, payload),
            PacketRegistration::OpenGumpCompressed => OpenGumpCompressed::decode_error(client_version, from_client, payload),
            PacketRegistration::GumpResult => GumpResult::decode_error(client_version, from_client, payload),
            PacketRegistration::AsciiTextMessage => AsciiTextMessage::decode_error(client_version, from_client, payload),
            PacketRegistration::UnicodeTextMessage => UnicodeTextMessage::decode_error(client_version, from_client, payload),
            PacketRegistration::LocalisedTextMessage => LocalisedTextMessage::decode_error(client_version, from_client, payload),
            PacketRegistration::AsciiTextMessageRequest => AsciiTextMessageRequest::decode_error(client_version, from_client, payload),
            PacketRegistration::UnicodeTextMessageRequest => UnicodeTextMessageRequest::decode_error(client_version, from_client, payload),
            PacketRegistration::PlayMusic => PlayMusic::decode_error(client_version, from_client, payload),
            PacketRegistration::PlaySoundEffect => PlaySoundEffect::decode_error(client_version, from_client, payload),
            PacketRegistration::SetTime => SetTime::decode_error(client_version, from_client, payload),
            PacketRegistration::ChangeSeason => ChangeSeason::decode_error(client_version, from_client, payload),
            PacketRegistration::ViewRange => ViewRange::decode_error(client_version, from_client, payload),
            PacketRegistration::EntityRequest => EntityRequest::decode_error(client_version, from_client, payload),
            PacketRegistration::UpsertEntityLegacy => UpsertEntityLegacy::decode_error(client_version, from_client, payload),
            PacketRegistration::UpsertEntityWorld => UpsertEntityWorld::decode_error(client_version, from_client, payload),
            PacketRegistration::DeleteEntity => DeleteEntity::decode_error(client_version, from_client, payload),
            PacketRegistration::UpsertLocalPlayer => UpsertLocalPlayer::decode_error(client_version, from_client, payload),
            PacketRegistration::UpsertEntityCharacter => UpsertEntityCharacter::decode_error(client_version, from_client, payload),
            PacketRegistration::UpsertEntityEquipped => UpsertEntityEquipped::decode_error(client_version, from_client, payload),
            PacketRegistration::UpsertEntityContained => UpsertEntityContained::decode_error(client_version, from_client, payload),
            PacketRegistration::UpsertContainerContents => UpsertContainerContents::decode_error(client_version, from_client, payload),
            PacketRegistration::EntityTooltipVersion => EntityTooltipVersion::decode_error(client_version, from_client, payload),
            PacketRegistration::EntityTooltip => EntityTooltip::decode_error(client_version, from_client, payload),
            PacketRegistration::UpsertEntityStats => UpsertEntityStats::decode_error(client_version, from_client, payload),
            PacketRegistration::AttackRequest => AttackRequest::decode_error(client_version, from_client, payload),
            PacketRegistration::SetAttackTarget => SetAttackTarget::decode_error(client_version, from_client, payload),
            PacketRegistration::Swing => Swing::decode_error(client_version, from_client, payload),
            PacketRegistration::CharacterAnimation => CharacterAnimation::decode_error(client_version, from_client, payload),
            PacketRegistration::CharacterPredefinedAnimation => CharacterPredefinedAnimation::decode_error(client_version, from_client, payload),
        }
    }

    /// `p` is what decoding `payload` as this type gives.
    #[verifier::opaque]
    pub open spec fn spec_decodes_to(self, client_version: ClientVersion, from_client: bool, payload: Seq<u8>, p: AnyPacket) -> bool {
        match (self, p) {
            (PacketRegistration::Seed, AnyPacket::Seed(q)) => Seed::decodes_to(client_version, from_client, payload, q),
            (PacketRegistration::AccountLogin, AnyPacket::AccountLogin(q)) => AccountLogin::decodes_to(client_version, from_client, payload, q),
            (PacketRegistration::ServerList, AnyPacket::ServerList(q)) => ServerList::decodes_to(client_version, from_client, payload, q),
            (PacketRegistration::SelectGameServer, AnyPacket::SelectGameServer(q)) => SelectGameServer::decodes_to(client_version, from_client, payload, q),
            (PacketRegistration::SwitchServer, AnyPacket::SwitchServer(q)) => SwitchServer::decodes_to(client_version, from_client, payload, q),
            (PacketRegistration::GameServerLogin, AnyPacket::GameServerLogin(q)) => GameServerLogin::decodes_to(client_version, from_client, payload, q),
            (PacketRegistration::SupportedFeatures, AnyPacket::SupportedFeatures(q)) => SupportedFeatures::decodes_to(client_version, from_client, payload, q),
            (PacketRegistration::CharacterList, AnyPacket::CharacterList(q)) => CharacterList::decodes_to(client_version, from_client, payload, q),
            (PacketRegistration::CreateCharacterClassic, AnyPacket::CreateCharacterClassic(q)) => CreateCharacterClassic::decodes_to(client_version, from_client, payload, q),
            (PacketRegistration::CreateCharacterEnhanced, AnyPacket::CreateCharacterEnhanced(q)) => CreateCharacterEnhanced::decodes_to(client_version, from_client, payload, q),
            (PacketRegistration::DeleteCharacter, AnyPacket::DeleteCharacter(q)) => DeleteCharacter::decodes_to(client_version, from_client, payload, q),
            (PacketRegistration::SelectCharacter, AnyPacket::SelectCharacter(q)) => SelectCharacter::decodes_to(client_version, from_client, payload, q),
            (PacketRegistration::ClientVersionRequest, AnyPacket::ClientVersionRequest(q)) => ClientVersionRequest::decodes_to(client_version, from_client, payload, q),
            (PacketRegistration::BeginEnterWorld, AnyPacket::BeginEnterWorld(q)) => BeginEnterWorld::decodes_to(client_version, from_client, payload, q),
            (PacketRegistration::EndEnterWorld, AnyPacket::EndEnterWorld(q)) => EndEnterWorld::decodes_to(client_version, from_client, payload, q),
            (PacketRegistration::ShowPublicHouses, AnyPacket::ShowPublicHouses(q)) => ShowPublicHouses::decodes_to(client_version, from_client, payload, q),
            (PacketRegistration::Ping, AnyPacket::Ping(q)) => Ping::decodes_to(client_version, from_client, payload, q),
            (PacketRegistration::ExtendedCommand, AnyPacket::ExtendedCommand(q)) => ExtendedCommand::decodes_to(client_version, from_client, payload, q),
            (PacketRegistration::ExtendedCommandAos, AnyPacket::ExtendedCommandAos(q)) => ExtendedCommandAos::decodes_to(client_version, from_client, payload, q),
            (PacketRegistration::Move, AnyPacket::Move(q)) => Move::decodes_to(client_version, from_client, payload, q),
            (PacketRegistration::MoveConfirm, AnyPacket::MoveConfirm(q)) => MoveConfirm::decodes_to(client_version, from_client, payload, q),
            (PacketRegistration::MoveReject, AnyPacket::MoveReject(q)) => MoveReject::decodes_to(client_version, from_client, payload, q),
            (PacketRegistration::SingleClick, AnyPacket::SingleClick(q)) => SingleClick::decodes_to(client_version, from_client, payload, q),
            (PacketRegistration::DoubleClick, AnyPacket::DoubleClick(q)) => DoubleClick::decodes_to(client_version, from_client, payload, q),
            (PacketRegistration::PickUpEntity, AnyPacket::PickUpEntity(q)) => PickUpEntity::decodes_to(client_version, from_client, payload, q),
            (PacketRegistration::DropEntity, AnyPacket::DropEntity(q)) => DropEntity::decodes_to(client_version, from_client, payload, q),
            (PacketRegistration::MoveEntityReject, AnyPacket::MoveEntityReject(q)) => MoveEntityReject::decodes_to(client_version, from_client, payload, q),
            (PacketRegistration::PickTarget, AnyPacket::PickTarget(q)) => PickTarget::decodes_to(client_version, from_client, payload, q),
            (PacketRegistration::OpenChatWindow, AnyPacket::OpenChatWindow(q)) => OpenChatWindow::decodes_to(client_version, from_client, payload, q),
            (PacketRegistration::OpenPaperDoll, AnyPacket::OpenPaperDoll(q)) => OpenPaperDoll::decodes_to(client_version, from_client, payload, q),
            (PacketRegistration::OpenContainer, AnyPacket::OpenContainer(q)) => OpenContainer::decodes_to(client_version, from_client, payload, q),
            (PacketRegistration::OpenGump, AnyPacket::OpenGump(q)) => OpenGump::decodes_to(client_version, from_client, payload, q),
            (PacketRegistration::OpenGumpCompressed, AnyPacket::OpenGumpCompressed(q)) => OpenGumpCompressed::decodes_to(client_version, from_client, payload, q),
            (PacketRegistration::GumpResult, AnyPacket::GumpResult(q)) => GumpResult::decodes_to(client_version, from_client, payload, q),
            (PacketRegistration::AsciiTextMessage, AnyPacket::AsciiTextMessage(q)) => AsciiTextMessage::decodes_to(client_version, from_client, payload, q),
            (PacketRegistration::UnicodeTextMessage, AnyPacket::UnicodeTextMessage(q)) => UnicodeTextMessage::decodes_to(client_version, from_client, payload, q),
            (PacketRegistration::LocalisedTextMessage, AnyPacket::LocalisedTextMessage(q)) => LocalisedTextMessage::decodes_to(client_version, from_client, payload, q),
            (PacketRegistration::AsciiTextMessageRequest, AnyPacket::AsciiTextMessageRequest(q)) => AsciiTextMessageRequest::decodes_to(client_version, from_client, payload, q),
            (PacketRegistration::UnicodeTextMessageRequest, AnyPacket::UnicodeTextMessageRequest(q)) => UnicodeTextMessageRequest::decodes_to(client_version, from_client, payload, q),
            (PacketRegistration::PlayMusic, AnyPacket::PlayMusic(q)) => PlayMusic::decodes_to(client_version, from_client, payload, q),
            (PacketRegistration::PlaySoundEffect, AnyPacket::PlaySoundEffect(q)) => PlaySoundEffect::decodes_to(client_version, from_client, payload, q),
            (PacketRegistration::SetTime, AnyPacket::SetTime(q)) => SetTime::decodes_to(client_version, from_client, payload, q),
            (PacketRegistration::ChangeSeason, AnyPacket::ChangeSeason(q)) => ChangeSeason::decodes_to(client_version, from_client, payload, q),
            (PacketRegistration::ViewRange, AnyPacket::ViewRange(q)) => ViewRange::decodes_to(client_version, from_client, payload, q),
            (PacketRegistration::EntityRequest, AnyPacket::EntityRequest(q)) => EntityRequest::decodes_to(client_version, from_client, payload, q),
            (PacketRegistration::UpsertEntityLegacy, AnyPacket::UpsertEntityLegacy(q)) => UpsertEntityLegacy::decodes_to(client_version, from_client, payload, q),
            (PacketRegistration::UpsertEntityWorld, AnyPacket::UpsertEntityWorld(q)) => UpsertEntityWorld::decodes_to(client_version, from_client, payload, q),
            (PacketRegistration::DeleteEntity, AnyPacket::DeleteEntity(q)) => DeleteEntity::decodes_to(client_version, from_client, payload, q),
            (PacketRegistration::UpsertLocalPlayer, AnyPacket::UpsertLocalPlayer(q)) => UpsertLocalPlayer::decodes_to(client_version, from_client, payload, q),
            (PacketRegistration::UpsertEntityCharacter, AnyPacket::UpsertEntityCharacter(q)) => UpsertEntityCharacter::decodes_to(client_version, from_client, payload, q),
            (PacketRegistration::UpsertEntityEquipped, AnyPacket::UpsertEntityEquipped(q)) => UpsertEntityEquipped::decodes_to(client_version, from_client, payload, q),
            (PacketRegistration::UpsertEntityContained, AnyPacket::UpsertEntityContained(q)) => UpsertEntityContained::decodes_to(client_version, from_client, payload, q),
            (PacketRegistration::UpsertContainerContents, AnyPacket::UpsertContainerContents(q)) => UpsertContainerContents::decodes_to(client_version, from_client, payload, q),
            (PacketRegistration::EntityTooltipVersion, AnyPacket::EntityTooltipVersion(q)) => EntityTooltipVersion::decodes_to(client_version, from_client, payload, q),
            (PacketRegistration::EntityTooltip, AnyPacket::EntityTooltip(q)) => EntityTooltip::decodes_to(client_version, from_client, payload, q),
            (PacketRegistration::UpsertEntityStats, AnyPacket::UpsertEntityStats(q)) => UpsertEntityStats::decodes_to(client_version, from_client, payload, q),
            (PacketRegistration::AttackRequest, AnyPacket::AttackRequest(q)) => AttackRequest::decodes_to(client_version, from_client, payload, q),
            (PacketRegistration::SetAttackTarget, AnyPacket::SetAttackTarget(q)) => SetAttackTarget::decodes_to(client_version, from_client, payload, q),
            (PacketRegistration::Swing, AnyPacket::Swing(q)) => Swing::decodes_to(client_version, from_client, payload, q),
            (PacketRegistration::CharacterAnimation, AnyPacket::CharacterAnimation(q)) => CharacterAnimation::decodes_to(client_version, from_client, payload, q),
            (PacketRegistration::CharacterPredefinedAnimation, AnyPacket::CharacterPredefinedAnimation(q)) => CharacterPredefinedAnimation::decodes_to(client_version, from_client, payload, q),
            _ => false,
        }
    }

    /// The whole length of packets of this type, when it is fixed.
    pub fn fixed_length(&self, client_version: ClientVersion) -> (r: Option<usize>)
        ensures
            r == self.spec_fixed_length(client_version),
    {
        match self {
            PacketRegistration::Seed => <Seed as Packet>::fixed_length(client_version),
            PacketRegistration::AccountLogin => <AccountLogin as Packet>::fixed_length(client_version),
            PacketRegistration::ServerList => <ServerList as Packet>::fixed_length(client_version),
            PacketRegistration::SelectGameServer => <SelectGameServer as Packet>::fixed_length(client_version),
            PacketRegistration::SwitchServer => <SwitchServer as Packet>::fixed_length(client_version),
            PacketRegistration::GameServerLogin => <GameServerLogin as Packet>::fixed_length(client_version),
            PacketRegistration::SupportedFeatures => <SupportedFeatures as Packet>::fixed_length(client_version),
            PacketRegistration::CharacterList => <CharacterList as Packet>::fixed_length(client_version),
            PacketRegistration::CreateCharacterClassic => <CreateCharacterClassic as Packet>::fixed_length(client_version),
            PacketRegistration::CreateCharacterEnhanced => <CreateCharacterEnhanced as Packet>::fixed_length(client_version),
            PacketRegistration::DeleteCharacter => <DeleteCharacter as Packet>::fixed_length(client_version),
            PacketRegistration::SelectCharacter => <SelectCharacter as Packet>::fixed_length(client_version),
            PacketRegistration::ClientVersionRequest => <ClientVersionRequest as Packet>::fixed_length(client_version),
            PacketRegistration::BeginEnterWorld => <BeginEnterWorld as Packet>::fixed_length(client_version),
            PacketRegistration::EndEnterWorld => <EndEnterWorld as Packet>::fixed_length(client_version),
            PacketRegistration::ShowPublicHouses => <ShowPublicHouses as Packet>::fixed_length(client_version),
            PacketRegistration::Ping => <Ping as Packet>::fixed_length(client_version),
            PacketRegistration::ExtendedCommand => <ExtendedCommand as Packet>::fixed_length(client_version),
            PacketRegistration::ExtendedCommandAos => <ExtendedCommandAos as Packet>::fixed_length(client_version),
            PacketRegistration::Move => <Move as Packet>::fixed_length(client_version),
            PacketRegistration::MoveConfirm => <MoveConfirm as Packet>::fixed_length(client_version),
            PacketRegistration::MoveReject => <MoveReject as Packet>::fixed_length(client_version),
            PacketRegistration::SingleClick => <SingleClick as Packet>::fixed_length(client_version),
            PacketRegistration::DoubleClick => <DoubleClick as Packet>::fixed_length(client_version),
            PacketRegistration::PickUpEntity => <PickUpEntity as Packet>::fixed_length(client_version),
            PacketRegistration::DropEntity => <DropEntity as Packet>::fixed_length(client_version),
            PacketRegistration::MoveEntityReject => <MoveEntityReject as Packet>::fixed_length(client_version),
            PacketRegistration::PickTarget => <PickTarget as Packet>::fixed_length(client_version),
            PacketRegistration::OpenChatWindow => <OpenChatWindow as Packet>::fixed_length(client_version),
            PacketRegistration::OpenPaperDoll => <OpenPaperDoll as Packet>::fixed_length(client_version),
            PacketRegistration::OpenContainer => <OpenContainer as Packet>::fixed_length(client_version),
            PacketRegistration::OpenGump => <OpenGump as Packet>::fixed_length(client_version),
            PacketRegistration::OpenGumpCompressed => <OpenGumpCompressed as Packet>::fixed_length(client_version),
            PacketRegistration::GumpResult => <GumpResult as Packet>::fixed_length(client_version),
            PacketRegistration::AsciiTextMessage => <AsciiTextMessage as Packet>::fixed_length(client_version),
            PacketRegistration::UnicodeTextMessage => <UnicodeTextMessage as Packet>::fixed_length(client_version),
            PacketRegistration::LocalisedTextMessage => <LocalisedTextMessage as Packet>::fixed_length(client_version),
            PacketRegistration::AsciiTextMessageRequest => <AsciiTextMessageRequest as Packet>::fixed_length(client_version),
            PacketRegistration::UnicodeTextMessageRequest => <UnicodeTextMessageRequest as Packet>::fixed_length(client_version),
            PacketRegistration::PlayMusic => <PlayMusic as Packet>::fixed_length(client_version),
            PacketRegistration::PlaySoundEffect => <PlaySoundEffect as Packet>::fixed_length(client_version),
            PacketRegistration::SetTime => <SetTime as Packet>::fixed_length(client_version),
            PacketRegistration::ChangeSeason => <ChangeSeason as Packet>::fixed_length(client_version),
            PacketRegistration::ViewRange => <ViewRange as Packet>::fixed_length(client_version),
            PacketRegistration::EntityRequest => <EntityRequest as Packet>::fixed_length(client_version),
            PacketRegistration::UpsertEntityLegacy => <UpsertEntityLegacy as Packet>::fixed_length(client_version),
            PacketRegistration::UpsertEntityWorld => <UpsertEntityWorld as Packet>::fixed_length(client_version),
            PacketRegistration::DeleteEntity => <DeleteEntity as Packet>::fixed_length(client_version),
            PacketRegistration::UpsertLocalPlayer => <UpsertLocalPlayer as Packet>::fixed_length(client_version),
            PacketRegistration::UpsertEntityCharacter => <UpsertEntityCharacter as Packet>::fixed_length(client_version),
            PacketRegistration::UpsertEntityEquipped => <UpsertEntityEquipped as Packet>::fixed_length(client_version),
            PacketRegistration::UpsertEntityContained => <UpsertEntityContained as Packet>::fixed_length(client_version),
            PacketRegistration::UpsertContainerContents => <UpsertContainerContents as Packet>::fixed_length(client_version),
            PacketRegistration::EntityTooltipVersion => <EntityTooltipVersion as Packet>::fixed_length(client_version),
            PacketRegistration::EntityTooltip => <EntityTooltip as Packet>::fixed_length(client_version),
            PacketRegistration::UpsertEntityStats => <UpsertEntityStats as Packet>::fixed_length(client_version),
            PacketRegistration::AttackRequest => <AttackRequest as Packet>::fixed_length(client_version),
            PacketRegistration::SetAttackTarget => <SetAttackTarget as Packet>::fixed_length(client_version),
            PacketRegistration::Swing => <Swing as Packet>::fixed_length(client_version),
            PacketRegistration::CharacterAnimation => <CharacterAnimation as Packet>::fixed_length(client_version),
            PacketRegistration::CharacterPredefinedAnimation => <CharacterPredefinedAnimation as Packet>::fixed_length(client_version),
        }
    }

    /// Decodes a payload as a packet of this type.
    pub fn decode(&self, client_version: ClientVersion, from_client: bool, payload: &[u8]) -> (r: Result<AnyPacket, ProtocolError>)
        ensures
            match r {
                Ok(p) => self.spec_decode_error(client_version, from_client, payload@) is None
                    && self.spec_decodes_to(client_version, from_client, payload@, p),
                Err(e) => self.spec_decode_error(client_version, from_client, payload@) == Some(e),
            },
    {
        match self {
            PacketRegistration::Seed => decode_as_seed(client_version, from_client, payload),
            PacketRegistration::AccountLogin => decode_as_account_login(client_version, from_client, payload),
            PacketRegistration::ServerList => decode_as_server_list(client_version, from_client, payload),
            PacketRegistration::SelectGameServer => decode_as_select_game_server(client_version, from_client, payload),
            PacketRegistration::SwitchServer => decode_as_switch_server(client_version, from_client, payload),
            PacketRegistration::GameServerLogin => decode_as_game_server_login(client_version, from_client, payload),
            PacketRegistration::SupportedFeatures => decode_as_supported_features(client_version, from_client, payload),
            PacketRegistration::CharacterList => decode_as_character_list(client_version, from_client, payload),
            PacketRegistration::CreateCharacterClassic => decode_as_create_character_classic(client_version, from_client, payload),
            PacketRegistration::CreateCharacterEnhanced => decode_as_create_character_enhanced(client_version, from_client, payload),
            PacketRegistration::DeleteCharacter => decode_as_delete_character(client_version, from_client, payload),
            PacketRegistration::SelectCharacter => decode_as_select_character(client_version, from_client, payload),
            PacketRegistration::ClientVersionRequest => decode_as_client_version_request(client_version, from_client, payload),
            PacketRegistration::BeginEnterWorld => decode_as_begin_enter_world(client_version, from_client, payload),
            PacketRegistration::EndEnterWorld => decode_as_end_enter_world(client_version, from_client, payload),
            PacketRegistration::ShowPublicHouses => decode_as_show_public_houses(client_version, from_client, payload),
            PacketRegistration::Ping => decode_as_ping(client_version, from_client, payload),
            PacketRegistration::ExtendedCommand => decode_as_extended_command(client_version, from_client, payload),
            PacketRegistration::ExtendedCommandAos => decode_as_extended_command_aos(client_version, from_client, payload),
            PacketRegistration::Move => decode_as_move(client_version, from_client, payload),
            PacketRegistration::MoveConfirm => decode_as_move_confirm(client_version, from_client, payload),
            PacketRegistration::MoveReject => decode_as_move_reject(client_version, from_client, payload),
            PacketRegistration::SingleClick => decode_as_single_click(client_version, from_client, payload),
            PacketRegistration::DoubleClick => decode_as_double_click(client_version, from_client, payload),
            PacketRegistration::PickUpEntity => decode_as_pick_up_entity(client_version, from_client, payload),
            PacketRegistration::DropEntity => decode_as_drop_entity(client_version, from_client, payload),
            PacketRegistration::MoveEntityReject => decode_as_move_entity_reject(client_version, from_client, payload),
            PacketRegistration::PickTarget => decode_as_pick_target(client_version, from_client, payload),
            PacketRegistration::OpenChatWindow => decode_as_open_chat_window(client_version, from_client, payload),
            PacketRegistration::OpenPaperDoll => decode_as_open_paper_doll(client_version, from_client, payload),
            PacketRegistration::OpenContainer => decode_as_open_container(client_version, from_client, payload),
            PacketRegistration::OpenGump => decode_as_open_gump(client_version, from_client, payload),
            PacketRegistration::OpenGumpCompressed => decode_as_open_gump_compressed(client_version, from_client, payload),
            PacketRegistration::GumpResult => decode_as_gump_result(client_version, from_client, payload),
            PacketRegistration::AsciiTextMessage => decode_as_ascii_text_message(client_version, from_client, payload),
            PacketRegistration::UnicodeTextMessage => decode_as_unicode_text_message(client_version, from_client, payload),
            PacketRegistration::LocalisedTextMessage => decode_as_localised_text_message(client_version, from_client, payload),
            PacketRegistration::AsciiTextMessageRequest => decode_as_ascii_text_message_request(client_version, from_client, payload),
            PacketRegistration::UnicodeTextMessageRequest => decode_as_unicode_text_message_request(client_version, from_client, payload),
            PacketRegistration::PlayMusic => decode_as_play_music(client_version, from_client, payload),
            PacketRegistration::PlaySoundEffect => decode_as_play_sound_effect(client_version, from_client, payload),
            PacketRegistration::SetTime => decode_as_set_time(client_version, from_client, payload),
            PacketRegistration::ChangeSeason => decode_as_change_season(client_version, from_client, payload),
            PacketRegistration::ViewRange => decode_as_view_range(client_version, from_client, payload),
            PacketRegistration::EntityRequest => decode_as_entity_request(client_version, from_client, payload),
            PacketRegistration::UpsertEntityLegacy => decode_as_upsert_entity_legacy(client_version, from_client, payload),
            PacketRegistration::UpsertEntityWorld => decode_as_upsert_entity_world(client_version, from_client, payload),
            PacketRegistration::DeleteEntity => decode_as_delete_entity(client_version, from_client, payload),
            PacketRegistration::UpsertLocalPlayer => decode_as_upsert_local_player(client_version, from_client, payload),
            PacketRegistration::UpsertEntityCharacter => decode_as_upsert_entity_character(client_version, from_client, payload),
            PacketRegistration::UpsertEntityEquipped => decode_as_upsert_entity_equipped(client_version, from_client, payload),
            PacketRegistration::UpsertEntityContained => decode_as_upsert_entity_contained(client_version, from_client, payload),
            PacketRegistration::UpsertContainerContents => decode_as_upsert_container_contents(client_version, from_client, payload),
            PacketRegistration::EntityTooltipVersion => decode_as_entity_tooltip_version(client_version, from_client, payload),
            PacketRegistration::EntityTooltip => decode_as_entity_tooltip(client_version, from_client, payload),
            PacketRegistration::UpsertEntityStats => decode_as_upsert_entity_stats(client_version, from_client, payload),
            PacketRegistration::AttackRequest => decode_as_attack_request(client_version, from_client, payload),
            PacketRegistration::SetAttackTarget => decode_as_set_attack_target(client_version, from_client, payload),
            PacketRegistration::Swing => decode_as_swing(client_version, from_client, payload),
            PacketRegistration::CharacterAnimation => decode_as_character_animation(client_version, from_client, payload),
            PacketRegistration::CharacterPredefinedAnimation => decode_as_character_predefined_animation(client_version, from_client, payload),
        }
    }
}

/// Decodes a payload as a `Seed`.
fn decode_as_seed(client_version: ClientVersion, from_client: bool, payload: &[u8]) -> (r: Result<AnyPacket, ProtocolError>)
    ensures
        match r {
            Ok(p) => PacketRegistration::Seed.spec_decode_error(client_version, from_client, payload@) is None
                && PacketRegistration::Seed.spec_decodes_to(client_version, from_client, payload@, p),
            Err(e) => PacketRegistration::Seed.spec_decode_error(client_version, from_client, payload@) == Some(e),
        },
{
    proof {
        reveal(PacketRegistration::spec_decode_error);
        reveal(PacketRegistration::spec_decodes_to);
    }
    match Seed::decode(client_version, from_client, payload) {
        Ok(p) => Ok(AnyPacket::Seed(p)),
        Err(e) => Err(e),
    }
}

/// Decodes a payload as a `AccountLogin`.
fn decode_as_account_login(client_version: ClientVersion, from_client: bool, payload: &[u8]) -> (r: Result<AnyPacket, ProtocolError>)
    ensures
        match r {
            Ok(p) => PacketRegistration::AccountLogin.spec_decode_error(client_version, from_client, payload@) is None
                && PacketRegistration::AccountLogin.spec_decodes_to(client_version, from_client, payload@, p),
            Err(e) => PacketRegistration::AccountLogin.spec_decode_error(client_version, from_client, payload@) == Some(e),
        },
{
    proof {
        reveal(PacketRegistration::spec_decode_error);
        reveal(PacketRegistration::spec_decodes_to);
    }
    match AccountLogin::decode(client_version, from_client, payload) {
        Ok(p) => Ok(AnyPacket::AccountLogin(p)),
        Err(e) => Err(e),
    }
}

/// Decodes a payload as a `ServerList`.
fn decode_as_server_list(client_version: ClientVersion, from_client: bool, payload: &[u8]) -> (r: Result<AnyPacket, ProtocolError>)
    ensures
        match r {
            Ok(p) => PacketRegistration::ServerList.spec_decode_error(client_version, from_client, payload@) is None
                && PacketRegistration::ServerList.spec_decodes_to(client_version, from_client, payload@, p),
            Err(e) => PacketRegistration::ServerList.spec_decode_error(client_version, from_client, payload@) == Some(e),
        },
{
    proof {
        reveal(PacketRegistration::spec_decode_error);
        reveal(PacketRegistration::spec_decodes_to);
    }
    match ServerList::decode(client_version, from_client, payload) {
        Ok(p) => Ok(AnyPacket::ServerList(p)),
        Err(e) => Err(e),
    }
}

/// Decodes a payload as a `SelectGameServer`.
fn decode_as_select_game_server(client_version: ClientVersion, from_client: bool, payload: &[u8]) -> (r: Result<AnyPacket, ProtocolError>)
    ensures
        match r {
            Ok(p) => PacketRegistration::SelectGameServer.spec_decode_error(client_version, from_client, payload@) is None
                && PacketRegistration::SelectGameServer.spec_decodes_to(client_version, from_client, payload@, p),
            Err(e) => PacketRegistration::SelectGameServer.spec_decode_error(client_version, from_client, payload@) == Some(e),
        },
{
    proof {
        reveal(PacketRegistration::spec_decode_error);
        reveal(PacketRegistration::spec_decodes_to);
    }
    match SelectGameServer::decode(client_version, from_client, payload) {
        Ok(p) => Ok(AnyPacket::SelectGameServer(p)),
        Err(e) => Err(e),
    }
}

/// Decodes a payload as a `SwitchServer`.
fn decode_as_switch_server(client_version: ClientVersion, from_client: bool, payload: &[u8]) -> (r: Result<AnyPacket, ProtocolError>)
    ensures
        match r {
            Ok(p) => PacketRegistration::SwitchServer.spec_decode_error(client_version, from_client, payload@) is None
                && PacketRegistration::SwitchServer.spec_decodes_to(client_version, from_client, payload@, p),
            Err(e) => PacketRegistration::SwitchServer.spec_decode_error(client_version, from_client, payload@) == Some(e),
        },
{
    proof {
        reveal(PacketRegistration::spec_decode_error);
        reveal(PacketRegistration::spec_decodes_to);
    }
    match SwitchServer::decode(client_version, from_client, payload) {
        Ok(p) => Ok(AnyPacket::SwitchServer(p)),
        Err(e) => Err(e),
    }
}

/// Decodes a payload as a `GameServerLogin`.
fn decode_as_game_server_login(client_version: ClientVersion, from_client: bool, payload: &[u8]) -> (r: Result<AnyPacket, ProtocolError>)
    ensures
        match r {
            Ok(p) => PacketRegistration::GameServerLogin.spec_decode_error(client_version, from_client, payload@) is None
                && PacketRegistration::GameServerLogin.spec_decodes_to(client_version, from_client, payload@, p),
            Err(e) => PacketRegistration::GameServerLogin.spec_decode_error(client_version, from_client, payload@) == Some(e),
        },
{
    proof {
        reveal(PacketRegistration::spec_decode_error);
        reveal(PacketRegistration::spec_decodes_to);
    }
    match GameServerLogin::decode(client_version, from_client, payload) {
        Ok(p) => Ok(AnyPacket::GameServerLogin(p)),
        Err(e) => Err(e),
    }
}

/// Decodes a payload as a `SupportedFeatures`.
fn decode_as_supported_features(client_version: ClientVersion, from_client: bool, payload: &[u8]) -> (r: Result<AnyPacket, ProtocolError>)
    ensures
        match r {
            Ok(p) => PacketRegistration::SupportedFeatures.spec_decode_error(client_version, from_client, payload@) is None
                && PacketRegistration::SupportedFeatures.spec_decodes_to(client_version, from_client, payload@, p),
            Err(e) => PacketRegistration::SupportedFeatures.spec_decode_error(client_version, from_client, payload@) == Some(e),
        },
{
    proof {
        reveal(PacketRegistration::spec_decode_error);
        reveal(PacketRegistration::spec_decodes_to);
    }
    match SupportedFeatures::decode(client_version, from_client, payload) {
        Ok(p) => Ok(AnyPacket::SupportedFeatures(p)),
        Err(e) => Err(e),
    }
}

/// Decodes a payload as a `CharacterList`.
fn decode_as_character_list(client_version: ClientVersion, from_client: bool, payload: &[u8]) -> (r: Result<AnyPacket, ProtocolError>)
    ensures
        match r {
            Ok(p) => PacketRegistration::CharacterList.spec_decode_error(client_version, from_client, payload@) is None
                && PacketRegistration::CharacterList.spec_decodes_to(client_version, from_client, payload@, p),
            Err(e) => PacketRegistration::CharacterList.spec_decode_error(client_version, from_client, payload@) == Some(e),
        },
{
    proof {
        reveal(PacketRegistration::spec_decode_error);
        reveal(PacketRegistration::spec_decodes_to);
    }
    match CharacterList::decode(client_version, from_client, payload) {
        Ok(p) => Ok(AnyPacket::CharacterList(p)),
        Err(e) => Err(e),
    }
}

/// Decodes a payload as a `CreateCharacterClassic`.
fn decode_as_create_character_classic(client_version: ClientVersion, from_client: bool, payload: &[u8]) -> (r: Result<AnyPacket, ProtocolError>)
    ensures
        match r {
            Ok(p) => PacketRegistration::CreateCharacterClassic.spec_decode_error(client_version, from_client, payload@) is None
                && PacketRegistration::CreateCharacterClassic.spec_decodes_to(client_version, from_client, payload@, p),
            Err(e) => PacketRegistration::CreateCharacterClassic.spec_decode_error(client_version, from_client, payload@) == Some(e),
        },
{
    proof {
        reveal(PacketRegistration::spec_decode_error);
        reveal(PacketRegistration::spec_decodes_to);
    }
    match CreateCharacterClassic::decode(client_version, from_client, payload) {
        Ok(p) => Ok(AnyPacket::CreateCharacterClassic(p)),
        Err(e) => Err(e),
    }
}

/// Decodes a payload as a `CreateCharacterEnhanced`.
fn decode_as_create_character_enhanced(client_version: ClientVersion, from_client: bool, payload: &[u8]) -> (r: Result<AnyPacket, ProtocolError>)
    ensures
        match r {
            Ok(p) => PacketRegistration::CreateCharacterEnhanced.spec_decode_error(client_version, from_client, payload@) is None
                && PacketRegistration::CreateCharacterEnhanced.spec_decodes_to(client_version, from_client, payload@, p),
            Err(e) => PacketRegistration::CreateCharacterEnhanced.spec_decode_error(client_version, from_client, payload@) == Some(e),
        },
{
    proof {
        reveal(PacketRegistration::spec_decode_error);
        reveal(PacketRegistration::spec_decodes_to);
    }
    match CreateCharacterEnhanced::decode(client_version, from_client, payload) {
        Ok(p) => Ok(AnyPacket::CreateCharacterEnhanced(p)),
        Err(e) => Err(e),
    }
}

/// Decodes a payload as a `DeleteCharacter`.
fn decode_as_delete_character(client_version: ClientVersion, from_client: bool, payload: &[u8]) -> (r: Result<AnyPacket, ProtocolError>)
    ensures
        match r {
            Ok(p) => PacketRegistration::DeleteCharacter.spec_decode_error(client_version, from_client, payload@) is None
                && PacketRegistration::DeleteCharacter.spec_decodes_to(client_version, from_client, payload@, p),
            Err(e) => PacketRegistration::DeleteCharacter.spec_decode_error(client_version, from_client, payload@) == Some(e),
        },
{
    proof {
        reveal(PacketRegistration::spec_decode_error);
        reveal(PacketRegistration::spec_decodes_to);
    }
    match DeleteCharacter::decode(client_version, from_client, payload) {
        Ok(p) => Ok(AnyPacket::DeleteCharacter(p)),
        Err(e) => Err(e),
    }
}

/// Decodes a payload as a `SelectCharacter`.
fn decode_as_select_character(client_version: ClientVersion, from_client: bool, payload: &[u8]) -> (r: Result<AnyPacket, ProtocolError>)
    ensures
        match r {
            Ok(p) => PacketRegistration::SelectCharacter.spec_decode_error(client_version, from_client, payload@) is None
                && PacketRegistration::SelectCharacter.spec_decodes_to(client_version, from_client, payload@, p),
            Err(e) => PacketRegistration::SelectCharacter.spec_decode_error(client_version, from_client, payload@) == Some(e),
        },
{
    proof {
        reveal(PacketRegistration::spec_decode_error);
        reveal(PacketRegistration::spec_decodes_to);
    }
    match SelectCharacter::decode(client_version, from_client, payload) {
        Ok(p) => Ok(AnyPacket::SelectCharacter(p)),
        Err(e) => Err(e),
    }
}

/// Decodes a payload as a `ClientVersionRequest`.
fn decode_as_client_version_request(client_version: ClientVersion, from_client: bool, payload: &[u8]) -> (r: Result<AnyPacket, ProtocolError>)
    ensures
        match r {
            Ok(p) => PacketRegistration::ClientVersionRequest.spec_decode_error(client_version, from_client, payload@) is None
                && PacketRegistration::ClientVersionRequest.spec_decodes_to(client_version, from_client, payload@, p),
            Err(e) => PacketRegistration::ClientVersionRequest.spec_decode_error(client_version, from_client, payload@) == Some(e),
        },
{
    proof {
        reveal(PacketRegistration::spec_decode_error);
        reveal(PacketRegistration::spec_decodes_to);
    }
    match ClientVersionRequest::decode(client_version, from_client, payload) {
        Ok(p) => Ok(AnyPacket::ClientVersionRequest(p)),
        Err(e) => Err(e),
    }
}

/// Decodes a payload as a `BeginEnterWorld`.
fn decode_as_begin_enter_world(client_version: ClientVersion, from_client: bool, payload: &[u8]) -> (r: Result<AnyPacket, ProtocolError>)
    ensures
        match r {
            Ok(p) => PacketRegistration::BeginEnterWorld.spec_decode_error(client_version, from_client, payload@) is None
                && PacketRegistration::BeginEnterWorld.spec_decodes_to(client_version, from_client, payload@, p),
            Err(e) => PacketRegistration::BeginEnterWorld.spec_decode_error(client_version, from_client, payload@) == Some(e),
        },
{
    proof {
        reveal(PacketRegistration::spec_decode_error);
        reveal(PacketRegistration::spec_decodes_to);
    }
    match BeginEnterWorld::decode(client_version, from_client, payload) {
        Ok(p) => Ok(AnyPacket::BeginEnterWorld(p)),
        Err(e) => Err(e),
    }
}

/// Decodes a payload as a `EndEnterWorld`.
fn decode_as_end_enter_world(client_version: ClientVersion, from_client: bool, payload: &[u8]) -> (r: Result<AnyPacket, ProtocolError>)
    ensures
        match r {
            Ok(p) => PacketRegistration::EndEnterWorld.spec_decode_error(client_version, from_client, payload@) is None
                && PacketRegistration::EndEnterWorld.spec_decodes_to(client_version, from_client, payload@, p),
            Err(e) => PacketRegistration::EndEnterWorld.spec_decode_error(client_version, from_client, payload@) == Some(e),
        },
{
    proof {
        reveal(PacketRegistration::spec_decode_error);
        reveal(PacketRegistration::spec_decodes_to);
    }
    match EndEnterWorld::decode(client_version, from_client, payload) {
        Ok(p) => Ok(AnyPacket::EndEnterWorld(p)),
        Err(e) => Err(e),
    }
}

/// Decodes a payload as a `ShowPublicHouses`.
fn decode_as_show_public_houses(client_version: ClientVersion, from_client: bool, payload: &[u8]) -> (r: Result<AnyPacket, ProtocolError>)
    ensures
        match r {
            Ok(p) => PacketRegistration::ShowPublicHouses.spec_decode_error(client_version, from_client, payload@) is None
                && PacketRegistration::ShowPublicHouses.spec_decodes_to(client_version, from_client, payload@, p),
            Err(e) => PacketRegistration::ShowPublicHouses.spec_decode_error(client_version, from_client, payload@) == Some(e),
        },
{
    proof {
        reveal(PacketRegistration::spec_decode_error);
        reveal(PacketRegistration::spec_decodes_to);
    }
    match ShowPublicHouses::decode(client_version, from_client, payload) {
        Ok(p) => Ok(AnyPacket::ShowPublicHouses(p)),
        Err(e) => Err(e),
    }
}

/// Decodes a payload as a `Ping`.
fn decode_as_ping(client_version: ClientVersion, from_client: bool, payload: &[u8]) -> (r: Result<AnyPacket, ProtocolError>)
    ensures
        match r {
            Ok(p) => PacketRegistration::Ping.spec_decode_error(client_version, from_client, payload@) is None
                && PacketRegistration::Ping.spec_decodes_to(client_version, from_client, payload@, p),
            Err(e) => PacketRegistration::Ping.spec_decode_error(client_version, from_client, payload@) == Some(e),
        },
{
    proof {
        reveal(PacketRegistration::spec_decode_error);
        reveal(PacketRegistration::spec_decodes_to);
    }
    match Ping::decode(client_version, from_client, payload) {
        Ok(p) => Ok(AnyPacket::Ping(p)),
        Err(e) => Err(e),
    }
}

/// Decodes a payload as a `ExtendedCommand`.
fn decode_as_extended_command(client_version: ClientVersion, from_client: bool, payload: &[u8]) -> (r: Result<AnyPacket, ProtocolError>)
    ensures
        match r {
            Ok(p) => PacketRegistration::ExtendedCommand.spec_decode_error(client_version, from_client, payload@) is None
                && PacketRegistration::ExtendedCommand.spec_decodes_to(client_version, from_client, payload@, p),
            Err(e) => PacketRegistration::ExtendedCommand.spec_decode_error(client_version, from_client, payload@) == Some(e),
        },
{
    proof {
        reveal(PacketRegistration::spec_decode_error);
        reveal(PacketRegistration::spec_decodes_to);
    }
    match ExtendedCommand::decode(client_version, from_client, payload) {
        Ok(p) => Ok(AnyPacket::ExtendedCommand(p)),
        Err(e) => Err(e),
    }
}

/// Decodes a payload as a `ExtendedCommandAos`.
fn decode_as_extended_command_aos(client_version: ClientVersion, from_client: bool, payload: &[u8]) -> (r: Result<AnyPacket, ProtocolError>)
    ensures
        match r {
            Ok(p) => PacketRegistration::ExtendedCommandAos.spec_decode_error(client_version, from_client, payload@) is None
                && PacketRegistration::ExtendedCommandAos.spec_decodes_to(client_version, from_client, payload@, p),
            Err(e) => PacketRegistration::ExtendedCommandAos.spec_decode_error(client_version, from_client, payload@) == Some(e),
        },
{
    proof {
        reveal(PacketRegistration::spec_decode_error);
        reveal(PacketRegistration::spec_decodes_to);
    }
    match ExtendedCommandAos::decode(client_version, from_client, payload) {
        Ok(p) => Ok(AnyPacket::ExtendedCommandAos(p)),
        Err(e) => Err(e),
    }
}

/// Decodes a payload as a `Move`.
fn decode_as_move(client_version: ClientVersion, from_client: bool, payload: &[u8]) -> (r: Result<AnyPacket, ProtocolError>)
    ensures
        match r {
            Ok(p) => PacketRegistration::Move.spec_decode_error(client_version, from_client, payload@) is None
                && PacketRegistration::Move.spec_decodes_to(client_version, from_client, payload@, p),
            Err(e) => PacketRegistration::Move.spec_decode_error(client_version, from_client, payload@) == Some(e),
        },
{
    proof {
        reveal(PacketRegistration::spec_decode_error);
        reveal(PacketRegistration::spec_decodes_to);
    }
    match Move::decode(client_version, from_client, payload) {
        Ok(p) => Ok(AnyPacket::Move(p)),
        Err(e) => Err(e),
    }
}

/// Decodes a payload as a `MoveConfirm`.
fn decode_as_move_confirm(client_version: ClientVersion, from_client: bool, payload: &[u8]) -> (r: Result<AnyPacket, ProtocolError>)
    ensures
        match r {
            Ok(p) => PacketRegistration::MoveConfirm.spec_decode_error(client_version, from_client, payload@) is None
                && PacketRegistration::MoveConfirm.spec_decodes_to(client_version, from_client, payload@, p),
            Err(e) => PacketRegistration::MoveConfirm.spec_decode_error(client_version, from_client, payload@) == Some(e),
        },
{
    proof {
        reveal(PacketRegistration::spec_decode_error);
        reveal(PacketRegistration::spec_decodes_to);
    }
    match MoveConfirm::decode(client_version, from_client, payload) {
        Ok(p) => Ok(AnyPacket::MoveConfirm(p)),
        Err(e) => Err(e),
    }
}

/// Decodes a payload as a `MoveReject`.
fn decode_as_move_reject(client_version: ClientVersion, from_client: bool, payload: &[u8]) -> (r: Result<AnyPacket, ProtocolError>)
    ensures
        match r {
            Ok(p) => PacketRegistration::MoveReject.spec_decode_error(client_version, from_client, payload@) is None
                && PacketRegistration::MoveReject.spec_decodes_to(client_version, from_client, payload@, p),
            Err(e) => PacketRegistration::MoveReject.spec_decode_error(client_version, from_client, payload@) == Some(e),
        },
{
    proof {
        reveal(PacketRegistration::spec_decode_error);
        reveal(PacketRegistration::spec_decodes_to);
    }
    match MoveReject::decode(client_version, from_client, payload) {
        Ok(p) => Ok(AnyPacket::MoveReject(p)),
        Err(e) => Err(e),
    }
}

/// Decodes a payload as a `SingleClick`.
fn decode_as_single_click(client_version: ClientVersion, from_client: bool, payload: &[u8]) -> (r: Result<AnyPacket, ProtocolError>)
    ensures
        match r {
            Ok(p) => PacketRegistration::SingleClick.spec_decode_error(client_version, from_client, payload@) is None
                && PacketRegistration::SingleClick.spec_decodes_to(client_version, from_client, payload@, p),
            Err(e) => PacketRegistration::SingleClick.spec_decode_error(client_version, from_client, payload@) == Some(e),
        },
{
    proof {
        reveal(PacketRegistration::spec_decode_error);
        reveal(PacketRegistration::spec_decodes_to);
    }
    match SingleClick::decode(client_version, from_client, payload) {
        Ok(p) => Ok(AnyPacket::SingleClick(p)),
        Err(e) => Err(e),
    }
}

/// Decodes a payload as a `DoubleClick`.
fn decode_as_double_click(client_version: ClientVersion, from_client: bool, payload: &[u8]) -> (r: Result<AnyPacket, ProtocolError>)
    ensures
        match r {
            Ok(p) => PacketRegistration::DoubleClick.spec_decode_error(client_version, from_client, payload@) is None
                && PacketRegistration::DoubleClick.spec_decodes_to(client_version, from_client, payload@, p),
            Err(e) => PacketRegistration::DoubleClick.spec_decode_error(client_version, from_client, payload@) == Some(e),
        },
{
    proof {
        reveal(PacketRegistration::spec_decode_error);
        reveal(PacketRegistration::spec_decodes_to);
    }
    match DoubleClick::decode(client_version, from_client, payload) {
        Ok(p) => Ok(AnyPacket::DoubleClick(p)),
        Err(e) => Err(e),
    }
}

/// Decodes a payload as a `PickUpEntity`.
fn decode_as_pick_up_entity(client_version: ClientVersion, from_client: bool, payload: &[u8]) -> (r: Result<AnyPacket, ProtocolError>)
    ensures
        match r {
            Ok(p) => PacketRegistration::PickUpEntity.spec_decode_error(client_version, from_client, payload@) is None
                && PacketRegistration::PickUpEntity.spec_decodes_to(client_version, from_client, payload@, p),
            Err(e) => PacketRegistration::PickUpEntity.spec_decode_error(client_version, from_client, payload@) == Some(e),
        },
{
    proof {
        reveal(PacketRegistration::spec_decode_error);
        reveal(PacketRegistration::spec_decodes_to);
    }
    match PickUpEntity::decode(client_version, from_client, payload) {
        Ok(p) => Ok(AnyPacket::PickUpEntity(p)),
        Err(e) => Err(e),
    }
}

/// Decodes a payload as a `DropEntity`.
fn decode_as_drop_entity(client_version: ClientVersion, from_client: bool, payload: &[u8]) -> (r: Result<AnyPacket, ProtocolError>)
    ensures
        match r {
            Ok(p) => PacketRegistration::DropEntity.spec_decode_error(client_version, from_client, payload@) is None
                && PacketRegistration::DropEntity.spec_decodes_to(client_version, from_client, payload@, p),
            Err(e) => PacketRegistration::DropEntity.spec_decode_error(client_version, from_client, payload@) == Some(e),
        },
{
    proof {
        reveal(PacketRegistration::spec_decode_error);
        reveal(PacketRegistration::spec_decodes_to);
    }
    match DropEntity::decode(client_version, from_client, payload) {
        Ok(p) => Ok(AnyPacket::DropEntity(p)),
        Err(e) => Err(e),
    }
}

/// Decodes a payload as a `MoveEntityReject`.
fn decode_as_move_entity_reject(client_version: ClientVersion, from_client: bool, payload: &[u8]) -> (r: Result<AnyPacket, ProtocolError>)
    ensures
        match r {
            Ok(p) => PacketRegistration::MoveEntityReject.spec_decode_error(client_version, from_client, payload@) is None
                && PacketRegistration::MoveEntityReject.spec_decodes_to(client_version, from_client, payload@, p),
            Err(e) => PacketRegistration::MoveEntityReject.spec_decode_error(client_version, from_client, payload@) == Some(e),
        },
{
    proof {
        reveal(PacketRegistration::spec_decode_error);
        reveal(PacketRegistration::spec_decodes_to);
    }
    match MoveEntityReject::decode(client_version, from_client, payload) {
        Ok(p) => Ok(AnyPacket::MoveEntityReject(p)),
        Err(e) => Err(e),
    }
}

/// Decodes a payload as a `PickTarget`.
fn decode_as_pick_target(client_version: ClientVersion, from_client: bool, payload: &[u8]) -> (r: Result<AnyPacket, ProtocolError>)
    ensures
        match r {
            Ok(p) => PacketRegistration::PickTarget.spec_decode_error(client_version, from_client, payload@) is None
                && PacketRegistration::PickTarget.spec_decodes_to(client_version, from_client, payload@, p),
            Err(e) => PacketRegistration::PickTarget.spec_decode_error(client_version, from_client, payload@) == Some(e),
        },
{
    proof {
        reveal(PacketRegistration::spec_decode_error);
        reveal(PacketRegistration::spec_decodes_to);
    }
    match PickTarget::decode(client_version, from_client, payload) {
        Ok(p) => Ok(AnyPacket::PickTarget(p)),
        Err(e) => Err(e),
    }
}

/// Decodes a payload as a `OpenChatWindow`.
fn decode_as_open_chat_window(client_version: ClientVersion, from_client: bool, payload: &[u8]) -> (r: Result<AnyPacket, ProtocolError>)
    ensures
        match r {
            Ok(p) => PacketRegistration::OpenChatWindow.spec_decode_error(client_version, from_client, payload@) is None
                && PacketRegistration::OpenChatWindow.spec_decodes_to(client_version, from_client, payload@, p),
            Err(e) => PacketRegistration::OpenChatWindow.spec_decode_error(client_version, from_client, payload@) == Some(e),
        },
{
    proof {
        reveal(PacketRegistration::spec_decode_error);
        reveal(PacketRegistration::spec_decodes_to);
    }
    match OpenChatWindow::decode(client_version, from_client, payload) {
        Ok(p) => Ok(AnyPacket::OpenChatWindow(p)),
        Err(e) => Err(e),
    }
}

/// Decodes a payload as a `OpenPaperDoll`.
fn decode_as_open_paper_doll(client_version: ClientVersion, from_client: bool, payload: &[u8]) -> (r: Result<AnyPacket, ProtocolError>)
    ensures
        match r {
            Ok(p) => PacketRegistration::OpenPaperDoll.spec_decode_error(client_version, from_client, payload@) is None
                && PacketRegistration::OpenPaperDoll.spec_decodes_to(client_version, from_client, payload@, p),
            Err(e) => PacketRegistration::OpenPaperDoll.spec_decode_error(client_version, from_client, payload@) == Some(e),
        },
{
    proof {
        reveal(PacketRegistration::spec_decode_error);
        reveal(PacketRegistration::spec_decodes_to);
    }
    match OpenPaperDoll::decode(client_version, from_client, payload) {
        Ok(p) => Ok(AnyPacket::OpenPaperDoll(p)),
        Err(e) => Err(e),
    }
}

/// Decodes a payload as a `OpenContainer`.
fn decode_as_open_container(client_version: ClientVersion, from_client: bool, payload: &[u8]) -> (r: Result<AnyPacket, ProtocolError>)
    ensures
        match r {
            Ok(p) => PacketRegistration::OpenContainer.spec_decode_error(client_version, from_client, payload@) is None
                && PacketRegistration::OpenContainer.spec_decodes_to(client_version, from_client, payload@, p),
            Err(e) => PacketRegistration::OpenContainer.spec_decode_error(client_version, from_client, payload@) == Some(e),
        },
{
    proof {
        reveal(PacketRegistration::spec_decode_error);
        reveal(PacketRegistration::spec_decodes_to);
    }
    match OpenContainer::decode(client_version, from_client, payload) {
        Ok(p) => Ok(AnyPacket::OpenContainer(p)),
        Err(e) => Err(e),
    }
}

/// Decodes a payload as a `OpenGump`.
fn decode_as_open_gump(client_version: ClientVersion, from_client: bool, payload: &[u8]) -> (r: Result<AnyPacket, ProtocolError>)
    ensures
        match r {
            Ok(p) => PacketRegistration::OpenGump.spec_decode_error(client_version, from_client, payload@) is None
                && PacketRegistration::OpenGump.spec_decodes_to(client_version, from_client, payload@, p),
            Err(e) => PacketRegistration::OpenGump.spec_decode_error(client_version, from_client, payload@) == Some(e),
        },
{
    proof {
        reveal(PacketRegistration::spec_decode_error);
        reveal(PacketRegistration::spec_decodes_to);
    }
    match OpenGump::decode(client_version, from_client, payload) {
        Ok(p) => Ok(AnyPacket::OpenGump(p)),
        Err(e) => Err(e),
    }
}

/// Decodes a payload as a `OpenGumpCompressed`.
fn decode_as_open_gump_compressed(client_version: ClientVersion, from_client: bool, payload: &[u8]) -> (r: Result<AnyPacket, ProtocolError>)
    ensures
        match r {
            Ok(p) => PacketRegistration::OpenGumpCompressed.spec_decode_error(client_version, from_client, payload@) is None
                && PacketRegistration::OpenGumpCompressed.spec_decodes_to(client_version, from_client, payload@, p),
            Err(e) => PacketRegistration::OpenGumpCompressed.spec_decode_error(client_version, from_client, payload@) == Some(e),
        },
{
    proof {
        reveal(PacketRegistration::spec_decode_error);
        reveal(PacketRegistration::spec_decodes_to);
    }
    match OpenGumpCompressed::decode(client_version, from_client, payload) {
        Ok(p) => Ok(AnyPacket::OpenGumpCompressed(p)),
        Err(e) => Err(e),
    }
}

/// Decodes a payload as a `GumpResult`.
fn decode_as_gump_result(client_version: ClientVersion, from_client: bool, payload: &[u8]) -> (r: Result<AnyPacket, ProtocolError>)
    ensures
        match r {
            Ok(p) => PacketRegistration::GumpResult.spec_decode_error(client_version, from_client, payload@) is None
                && PacketRegistration::GumpResult.spec_decodes_to(client_version, from_client, payload@, p),
            Err(e) => PacketRegistration::GumpResult.spec_decode_error(client_version, from_client, payload@) == Some(e),
        },
{
    proof {
        reveal(PacketRegistration::spec_decode_error);
        reveal(PacketRegistration::spec_decodes_to);
    }
    match GumpResult::decode(client_version, from_client, payload) {
        Ok(p) => Ok(AnyPacket::GumpResult(p)),
        Err(e) => Err(e),
    }
}

/// Decodes a payload as a `AsciiTextMessage`.
fn decode_as_ascii_text_message(client_version: ClientVersion, from_client: bool, payload: &[u8]) -> (r: Result<AnyPacket, ProtocolError>)
    ensures
        match r {
            Ok(p) => PacketRegistration::AsciiTextMessage.spec_decode_error(client_version, from_client, payload@) is None
                && PacketRegistration::AsciiTextMessage.spec_decodes_to(client_version, from_client, payload@, p),
            Err(e) => PacketRegistration::AsciiTextMessage.spec_decode_error(client_version, from_client, payload@) == Some(e),
        },
{
    proof {
        reveal(PacketRegistration::spec_decode_error);
        reveal(PacketRegistration::spec_decodes_to);
    }
    match AsciiTextMessage::decode(client_version, from_client, payload) {
        Ok(p) => Ok(AnyPacket::AsciiTextMessage(p)),
        Err(e) => Err(e),
    }
}

/// Decodes a payload as a `UnicodeTextMessage`.
fn decode_as_unicode_text_message(client_version: ClientVersion, from_client: bool, payload: &[u8]) -> (r: Result<AnyPacket, ProtocolError>)
    ensures
        match r {
            Ok(p) => PacketRegistration::UnicodeTextMessage.spec_decode_error(client_version, from_client, payload@) is None
                && PacketRegistration::UnicodeTextMessage.spec_decodes_to(client_version, from_client, payload@, p),
            Err(e) => PacketRegistration::UnicodeTextMessage.spec_decode_error(client_version, from_client, payload@) == Some(e),
        },
{
    proof {
        reveal(PacketRegistration::spec_decode_error);
        reveal(PacketRegistration::spec_decodes_to);
    }
    match UnicodeTextMessage::decode(client_version, from_client, payload) {
        Ok(p) => Ok(AnyPacket::UnicodeTextMessage(p)),
        Err(e) => Err(e),
    }
}

/// Decodes a payload as a `LocalisedTextMessage`.
fn decode_as_localised_text_message(client_version: ClientVersion, from_client: bool, payload: &[u8]) -> (r: Result<AnyPacket, ProtocolError>)
    ensures
        match r {
            Ok(p) => PacketRegistration::LocalisedTextMessage.spec_decode_error(client_version, from_client, payload@) is None
                && PacketRegistration::LocalisedTextMessage.spec_decodes_to(client_version, from_client, payload@, p),
            Err(e) => PacketRegistration::LocalisedTextMessage.spec_decode_error(client_version, from_client, payload@) == Some(e),
        },
{
    proof {
        reveal(PacketRegistration::spec_decode_error);
        reveal(PacketRegistration::spec_decodes_to);
    }
    match LocalisedTextMessage::decode(client_version, from_client, payload) {
        Ok(p) => Ok(AnyPacket::LocalisedTextMessage(p)),
        Err(e) => Err(e),
    }
}

/// Decodes a payload as a `AsciiTextMessageRequest`.
fn decode_as_ascii_text_message_request(client_version: ClientVersion, from_client: bool, payload: &[u8]) -> (r: Result<AnyPacket, ProtocolError>)
    ensures
        match r {
            Ok(p) => PacketRegistration::AsciiTextMessageRequest.spec_decode_error(client_version, from_client, payload@) is None
                && PacketRegistration::AsciiTextMessageRequest.spec_decodes_to(client_version, from_client, payload@, p),
            Err(e) => PacketRegistration::AsciiTextMessageRequest.spec_decode_error(client_version, from_client, payload@) == Some(e),
        },
{
    proof {
        reveal(PacketRegistration::spec_decode_error);
        reveal(PacketRegistration::spec_decodes_to);
    }
    match AsciiTextMessageRequest::decode(client_version, from_client, payload) {
        Ok(p) => Ok(AnyPacket::AsciiTextMessageRequest(p)),
        Err(e) => Err(e),
    }
}

/// Decodes a payload as a `UnicodeTextMessageRequest`.
fn decode_as_unicode_text_message_request(client_version: ClientVersion, from_client: bool, payload: &[u8]) -> (r: Result<AnyPacket, ProtocolError>)
    ensures
        match r {
            Ok(p) => PacketRegistration::UnicodeTextMessageRequest.spec_decode_error(client_version, from_client, payload@) is None
                && PacketRegistration::UnicodeTextMessageRequest.spec_decodes_to(client_version, from_client, payload@, p),
            Err(e) => PacketRegistration::UnicodeTextMessageRequest.spec_decode_error(client_version, from_client, payload@) == Some(e),
        },
{
    proof {
        reveal(PacketRegistration::spec_decode_error);
        reveal(PacketRegistration::spec_decodes_to);
    }
    match UnicodeTextMessageRequest::decode(client_version, from_client, payload) {
        Ok(p) => Ok(AnyPacket::UnicodeTextMessageRequest(p)),
        Err(e) => Err(e),
    }
}

/// Decodes a payload as a `PlayMusic`.
fn decode_as_play_music(client_version: ClientVersion, from_client: bool, payload: &[u8]) -> (r: Result<AnyPacket, ProtocolError>)
    ensures
        match r {
            Ok(p) => PacketRegistration::PlayMusic.spec_decode_error(client_version, from_client, payload@) is None
                && PacketRegistration::PlayMusic.spec_decodes_to(client_version, from_client, payload@, p),
            Err(e) => PacketRegistration::PlayMusic.spec_decode_error(client_version, from_client, payload@) == Some(e),
        },
{
    proof {
        reveal(PacketRegistration::spec_decode_error);
        reveal(PacketRegistration::spec_decodes_to);
    }
    match PlayMusic::decode(client_version, from_client, payload) {
        Ok(p) => Ok(AnyPacket::PlayMusic(p)),
        Err(e) => Err(e),
    }
}

/// Decodes a payload as a `PlaySoundEffect`.
fn decode_as_play_sound_effect(client_version: ClientVersion, from_client: bool, payload: &[u8]) -> (r: Result<AnyPacket, ProtocolError>)
    ensures
        match r {
            Ok(p) => PacketRegistration::PlaySoundEffect.spec_decode_error(client_version, from_client, payload@) is None
                && PacketRegistration::PlaySoundEffect.spec_decodes_to(client_version, from_client, payload@, p),
            Err(e) => PacketRegistration::PlaySoundEffect.spec_decode_error(client_version, from_client, payload@) == Some(e),
        },
{
    proof {
        reveal(PacketRegistration::spec_decode_error);
        reveal(PacketRegistration::spec_decodes_to);
    }
    match PlaySoundEffect::decode(client_version, from_client, payload) {
        Ok(p) => Ok(AnyPacket::PlaySoundEffect(p)),
        Err(e) => Err(e),
    }
}

/// Decodes a payload as a `SetTime`.
fn decode_as_set_time(client_version: ClientVersion, from_client: bool, payload: &[u8]) -> (r: Result<AnyPacket, ProtocolError>)
    ensures
        match r {
            Ok(p) => PacketRegistration::SetTime.spec_decode_error(client_version, from_client, payload@) is None
                && PacketRegistration::SetTime.spec_decodes_to(client_version, from_client, payload@, p),
            Err(e) => PacketRegistration::SetTime.spec_decode_error(client_version, from_client, payload@) == Some(e),
        },
{
    proof {
        reveal(PacketRegistration::spec_decode_error);
        reveal(PacketRegistration::spec_decodes_to);
    }
    match SetTime::decode(client_version, from_client, payload) {
        Ok(p) => Ok(AnyPacket::SetTime(p)),
        Err(e) => Err(e),
    }
}

/// Decodes a payload as a `ChangeSeason`.
fn decode_as_change_season(client_version: ClientVersion, from_client: bool, payload: &[u8]) -> (r: Result<AnyPacket, ProtocolError>)
    ensures
        match r {
            Ok(p) => PacketRegistration::ChangeSeason.spec_decode_error(client_version, from_client, payload@) is None
                && PacketRegistration::ChangeSeason.spec_decodes_to(client_version, from_client, payload@, p),
            Err(e) => PacketRegistration::ChangeSeason.spec_decode_error(client_version, from_client, payload@) == Some(e),
        },
{
    proof {
        reveal(PacketRegistration::spec_decode_error);
        reveal(PacketRegistration::spec_decodes_to);
    }
    match ChangeSeason::decode(client_version, from_client, payload) {
        Ok(p) => Ok(AnyPacket::ChangeSeason(p)),
        Err(e) => Err(e),
    }
}

/// Decodes a payload as a `ViewRange`.
fn decode_as_view_range(client_version: ClientVersion, from_client: bool, payload: &[u8]) -> (r: Result<AnyPacket, ProtocolError>)
    ensures
        match r {
            Ok(p) => PacketRegistration::ViewRange.spec_decode_error(client_version, from_client, payload@) is None
                && PacketRegistration::ViewRange.spec_decodes_to(client_version, from_client, payload@, p),
            Err(e) => PacketRegistration::ViewRange.spec_decode_error(client_version, from_client, payload@) == Some(e),
        },
{
    proof {
        reveal(PacketRegistration::spec_decode_error);
        reveal(PacketRegistration::spec_decodes_to);
    }
    match ViewRange::decode(client_version, from_client, payload) {
        Ok(p) => Ok(AnyPacket::ViewRange(p)),
        Err(e) => Err(e),
    }
}

/// Decodes a payload as a `EntityRequest`.
fn decode_as_entity_request(client_version: ClientVersion, from_client: bool, payload: &[u8]) -> (r: Result<AnyPacket, ProtocolError>)
    ensures
        match r {
            Ok(p) => PacketRegistration::EntityRequest.spec_decode_error(client_version, from_client, payload@) is None
                && PacketRegistration::EntityRequest.spec_decodes_to(client_version, from_client, payload@, p),
            Err(e) => PacketRegistration::EntityRequest.spec_decode_error(client_version, from_client, payload@) == Some(e),
        },
{
    proof {
        reveal(PacketRegistration::spec_decode_error);
        reveal(PacketRegistration::spec_decodes_to);
    }
    match EntityRequest::decode(client_version, from_client, payload) {
        Ok(p) => Ok(AnyPacket::EntityRequest(p)),
        Err(e) => Err(e),
    }
}

/// Decodes a payload as a `UpsertEntityLegacy`.
fn decode_as_upsert_entity_legacy(client_version: ClientVersion, from_client: bool, payload: &[u8]) -> (r: Result<AnyPacket, ProtocolError>)
    ensures
        match r {
            Ok(p) => PacketRegistration::UpsertEntityLegacy.spec_decode_error(client_version, from_client, payload@) is None
                && PacketRegistration::UpsertEntityLegacy.spec_decodes_to(client_version, from_client, payload@, p),
            Err(e) => PacketRegistration::UpsertEntityLegacy.spec_decode_error(client_version, from_client, payload@) == Some(e),
        },
{
    proof {
        reveal(PacketRegistration::spec_decode_error);
        reveal(PacketRegistration::spec_decodes_to);
    }
    match UpsertEntityLegacy::decode(client_version, from_client, payload) {
        Ok(p) => Ok(AnyPacket::UpsertEntityLegacy(p)),
        Err(e) => Err(e),
    }
}

/// Decodes a payload as a `UpsertEntityWorld`.
fn decode_as_upsert_entity_world(client_version: ClientVersion, from_client: bool, payload: &[u8]) -> (r: Result<AnyPacket, ProtocolError>)
    ensures
        match r {
            Ok(p) => PacketRegistration::UpsertEntityWorld.spec_decode_error(client_version, from_client, payload@) is None
                && PacketRegistration::UpsertEntityWorld.spec_decodes_to(client_version, from_client, payload@, p),
            Err(e) => PacketRegistration::UpsertEntityWorld.spec_decode_error(client_version, from_client, payload@) == Some(e),
        },
{
    proof {
        reveal(PacketRegistration::spec_decode_error);
        reveal(PacketRegistration::spec_decodes_to);
    }
    match UpsertEntityWorld::decode(client_version, from_client, payload) {
        Ok(p) => Ok(AnyPacket::UpsertEntityWorld(p)),
        Err(e) => Err(e),
    }
}

/// Decodes a payload as a `DeleteEntity`.
fn decode_as_delete_entity(client_version: ClientVersion, from_client: bool, payload: &[u8]) -> (r: Result<AnyPacket, ProtocolError>)
    ensures
        match r {
            Ok(p) => PacketRegistration::DeleteEntity.spec_decode_error(client_version, from_client, payload@) is None
                && PacketRegistration::DeleteEntity.spec_decodes_to(client_version, from_client, payload@, p),
            Err(e) => PacketRegistration::DeleteEntity.spec_decode_error(client_version, from_client, payload@) == Some(e),
        },
{
    proof {
        reveal(PacketRegistration::spec_decode_error);
        reveal(PacketRegistration::spec_decodes_to);
    }
    match DeleteEntity::decode(client_version, from_client, payload) {
        Ok(p) => Ok(AnyPacket::DeleteEntity(p)),
        Err(e) => Err(e),
    }
}

/// Decodes a payload as a `UpsertLocalPlayer`.
fn decode_as_upsert_local_player(client_version: ClientVersion, from_client: bool, payload: &[u8]) -> (r: Result<AnyPacket, ProtocolError>)
    ensures
        match r {
            Ok(p) => PacketRegistration::UpsertLocalPlayer.spec_decode_error(client_version, from_client, payload@) is None
                && PacketRegistration::UpsertLocalPlayer.spec_decodes_to(client_version, from_client, payload@, p),
            Err(e) => PacketRegistration::UpsertLocalPlayer.spec_decode_error(client_version, from_client, payload@) == Some(e),
        },
{
    proof {
        reveal(PacketRegistration::spec_decode_error);
        reveal(PacketRegistration::spec_decodes_to);
    }
    match UpsertLocalPlayer::decode(client_version, from_client, payload) {
        Ok(p) => Ok(AnyPacket::UpsertLocalPlayer(p)),
        Err(e) => Err(e),
    }
}

/// Decodes a payload as a `UpsertEntityCharacter`.
fn decode_as_upsert_entity_character(client_version: ClientVersion, from_client: bool, payload: &[u8]) -> (r: Result<AnyPacket, ProtocolError>)
    ensures
        match r {
            Ok(p) => PacketRegistration::UpsertEntityCharacter.spec_decode_error(client_version, from_client, payload@) is None
                && PacketRegistration::UpsertEntityCharacter.spec_decodes_to(client_version, from_client, payload@, p),
            Err(e) => PacketRegistration::UpsertEntityCharacter.spec_decode_error(client_version, from_client, payload@) == Some(e),
        },
{
    proof {
        reveal(PacketRegistration::spec_decode_error);
        reveal(PacketRegistration::spec_decodes_to);
    }
    match UpsertEntityCharacter::decode(client_version, from_client, payload) {
        Ok(p) => Ok(AnyPacket::UpsertEntityCharacter(p)),
        Err(e) => Err(e),
    }
}

/// Decodes a payload as a `UpsertEntityEquipped`.
fn decode_as_upsert_entity_equipped(client_version: ClientVersion, from_client: bool, payload: &[u8]) -> (r: Result<AnyPacket, ProtocolError>)
    ensures
        match r {
            Ok(p) => PacketRegistration::UpsertEntityEquipped.spec_decode_error(client_version, from_client, payload@) is None
                && PacketRegistration::UpsertEntityEquipped.spec_decodes_to(client_version, from_client, payload@, p),
            Err(e) => PacketRegistration::UpsertEntityEquipped.spec_decode_error(client_version, from_client, payload@) == Some(e),
        },
{
    proof {
        reveal(PacketRegistration::spec_decode_error);
        reveal(PacketRegistration::spec_decodes_to);
    }
    match UpsertEntityEquipped::decode(client_version, from_client, payload) {
        Ok(p) => Ok(AnyPacket::UpsertEntityEquipped(p)),
        Err(e) => Err(e),
    }
}

/// Decodes a payload as a `UpsertEntityContained`.
fn decode_as_upsert_entity_contained(client_version: ClientVersion, from_client: bool, payload: &[u8]) -> (r: Result<AnyPacket, ProtocolError>)
    ensures
        match r {
            Ok(p) => PacketRegistration::UpsertEntityContained.spec_decode_error(client_version, from_client, payload@) is None
                && PacketRegistration::UpsertEntityContained.spec_decodes_to(client_version, from_client, payload@, p),
            Err(e) => PacketRegistration::UpsertEntityContained.spec_decode_error(client_version, from_client, payload@) == Some(e),
        },
{
    proof {
        reveal(PacketRegistration::spec_decode_error);
        reveal(PacketRegistration::spec_decodes_to);
    }
    match UpsertEntityContained::decode(client_version, from_client, payload) {
        Ok(p) => Ok(AnyPacket::UpsertEntityContained(p)),
        Err(e) => Err(e),
    }
}

/// Decodes a payload as a `UpsertContainerContents`.
fn decode_as_upsert_container_contents(client_version: ClientVersion, from_client: bool, payload: &[u8]) -> (r: Result<AnyPacket, ProtocolError>)
    ensures
        match r {
            Ok(p) => PacketRegistration::UpsertContainerContents.spec_decode_error(client_version, from_client, payload@) is None
                && PacketRegistration::UpsertContainerContents.spec_decodes_to(client_version, from_client, payload@, p),
            Err(e) => PacketRegistration::UpsertContainerContents.spec_decode_error(client_version, from_client, payload@) == Some(e),
        },
{
    proof {
        reveal(PacketRegistration::spec_decode_error);
        reveal(PacketRegistration::spec_decodes_to);
    }
    match UpsertContainerContents::decode(client_version, from_client, payload) {
        Ok(p) => Ok(AnyPacket::UpsertContainerContents(p)),
        Err(e) => Err(e),
    }
}

/// Decodes a payload as a `EntityTooltipVersion`.
fn decode_as_entity_tooltip_version(client_version: ClientVersion, from_client: bool, payload: &[u8]) -> (r: Result<AnyPacket, ProtocolError>)
    ensures
        match r {
            Ok(p) => PacketRegistration::EntityTooltipVersion.spec_decode_error(client_version, from_client, payload@) is None
                && PacketRegistration::EntityTooltipVersion.spec_decodes_to(client_version, from_client, payload@, p),
            Err(e) => PacketRegistration::EntityTooltipVersion.spec_decode_error(client_version, from_client, payload@) == Some(e),
        },
{
    proof {
        reveal(PacketRegistration::spec_decode_error);
        reveal(PacketRegistration::spec_decodes_to);
    }
    match EntityTooltipVersion::decode(client_version, from_client, payload) {
        Ok(p) => Ok(AnyPacket::EntityTooltipVersion(p)),
        Err(e) => Err(e),
    }
}

/// Decodes a payload as a `EntityTooltip`.
fn decode_as_entity_tooltip(client_version: ClientVersion, from_client: bool, payload: &[u8]) -> (r: Result<AnyPacket, ProtocolError>)
    ensures
        match r {
            Ok(p) => PacketRegistration::EntityTooltip.spec_decode_error(client_version, from_client, payload@) is None
                && PacketRegistration::EntityTooltip.spec_decodes_to(client_version, from_client, payload@, p),
            Err(e) => PacketRegistration::EntityTooltip.spec_decode_error(client_version, from_client, payload@) == Some(e),
        },
{
    proof {
        reveal(PacketRegistration::spec_decode_error);
        reveal(PacketRegistration::spec_decodes_to);
    }
    match EntityTooltip::decode(client_version, from_client, payload) {
        Ok(p) => Ok(AnyPacket::EntityTooltip(p)),
        Err(e) => Err(e),
    }
}

/// Decodes a payload as a `UpsertEntityStats`.
fn decode_as_upsert_entity_stats(client_version: ClientVersion, from_client: bool, payload: &[u8]) -> (r: Result<AnyPacket, ProtocolError>)
    ensures
        match r {
            Ok(p) => PacketRegistration::UpsertEntityStats.spec_decode_error(client_version, from_client, payload@) is None
                && PacketRegistration::UpsertEntityStats.spec_decodes_to(client_version, from_client, payload@, p),
            Err(e) => PacketRegistration::UpsertEntityStats.spec_decode_error(client_version, from_client, payload@) == Some(e),
        },
{
    proof {
        reveal(PacketRegistration::spec_decode_error);
        reveal(PacketRegistration::spec_decodes_to);
    }
    match UpsertEntityStats::decode(client_version, from_client, payload) {
        Ok(p) => Ok(AnyPacket::UpsertEntityStats(p)),
        Err(e) => Err(e),
    }
}

/// Decodes a payload as a `AttackRequest`.
fn decode_as_attack_request(client_version: ClientVersion, from_client: bool, payload: &[u8]) -> (r: Result<AnyPacket, ProtocolError>)
    ensures
        match r {
            Ok(p) => PacketRegistration::AttackRequest.spec_decode_error(client_version, from_client, payload@) is None
                && PacketRegistration::AttackRequest.spec_decodes_to(client_version, from_client, payload@, p),
            Err(e) => PacketRegistration::AttackRequest.spec_decode_error(client_version, from_client, payload@) == Some(e),
        },
{
    proof {
        reveal(PacketRegistration::spec_decode_error);
        reveal(PacketRegistration::spec_decodes_to);
    }
    match AttackRequest::decode(client_version, from_client, payload) {
        Ok(p) => Ok(AnyPacket::AttackRequest(p)),
        Err(e) => Err(e),
    }
}

/// Decodes a payload as a `SetAttackTarget`.
fn decode_as_set_attack_target(client_version: ClientVersion, from_client: bool, payload: &[u8]) -> (r: Result<AnyPacket, ProtocolError>)
    ensures
        match r {
            Ok(p) => PacketRegistration::SetAttackTarget.spec_decode_error(client_version, from_client, payload@) is None
                && PacketRegistration::SetAttackTarget.spec_decodes_to(client_version, from_client, payload@, p),
            Err(e) => PacketRegistration::SetAttackTarget.spec_decode_error(client_version, from_client, payload@) == Some(e),
        },
{
    proof {
        reveal(PacketRegistration::spec_decode_error);
        reveal(PacketRegistration::spec_decodes_to);
    }
    match SetAttackTarget::decode(client_version, from_client, payload) {
        Ok(p) => Ok(AnyPacket::SetAttackTarget(p)),
        Err(e) => Err(e),
    }
}

/// Decodes a payload as a `Swing`.
fn decode_as_swing(client_version: ClientVersion, from_client: bool, payload: &[u8]) -> (r: Result<AnyPacket, ProtocolError>)
    ensures
        match r {
            Ok(p) => PacketRegistration::Swing.spec_decode_error(client_version, from_client, payload@) is None
                && PacketRegistration::Swing.spec_decodes_to(client_version, from_client, payload@, p),
            Err(e) => PacketRegistration::Swing.spec_decode_error(client_version, from_client, payload@) == Some(e),
        },
{
    proof {
        reveal(PacketRegistration::spec_decode_error);
        reveal(PacketRegistration::spec_decodes_to);
    }
    match Swing::decode(client_version, from_client, payload) {
        Ok(p) => Ok(AnyPacket::Swing(p)),
        Err(e) => Err(e),
    }
}

/// Decodes a payload as a `CharacterAnimation`.
fn decode_as_character_animation(client_version: ClientVersion, from_client: bool, payload: &[u8]) -> (r: Result<AnyPacket, ProtocolError>)
    ensures
        match r {
            Ok(p) => PacketRegistration::CharacterAnimation.spec_decode_error(client_version, from_client, payload@) is None
                && PacketRegistration::CharacterAnimation.spec_decodes_to(client_version, from_client, payload@, p),
            Err(e) => PacketRegistration::CharacterAnimation.spec_decode_error(client_version, from_client, payload@) == Some(e),
        },
{
    proof {
        reveal(PacketRegistration::spec_decode_error);
        reveal(PacketRegistration::spec_decodes_to);
    }
    match CharacterAnimation::decode(client_version, from_client, payload) {
        Ok(p) => Ok(AnyPacket::CharacterAnimation(p)),
        Err(e) => Err(e),
    }
}

/// Decodes a payload as a `CharacterPredefinedAnimation`.
fn decode_as_character_predefined_animation(client_version: ClientVersion, from_client: bool, payload: &[u8]) -> (r: Result<AnyPacket, ProtocolError>)
    ensures
        match r {
            Ok(p) => PacketRegistration::CharacterPredefinedAnimation.spec_decode_error(client_version, from_client, payload@) is None
                && PacketRegistration::CharacterPredefinedAnimation.spec_decodes_to(client_version, from_client, payload@, p),
            Err(e) => PacketRegistration::CharacterPredefinedAnimation.spec_decode_error(client_version, from_client, payload@) == Some(e),
        },
{
    proof {
        reveal(PacketRegistration::spec_decode_error);
        reveal(PacketRegistration::spec_decodes_to);
    }
    match CharacterPredefinedAnimation::decode(client_version, from_client, payload) {
        Ok(p) => Ok(AnyPacket::CharacterPredefinedAnimation(p)),
        Err(e) => Err(e),
    }
}


impl AnyPacket {
    pub open spec fn spec_packet_kind(&self) -> u8 {
        match self {
            AnyPacket::Seed(_) => Seed::spec_packet_kind(),
            AnyPacket::AccountLogin(_) => AccountLogin::spec_packet_kind(),
            AnyPacket::ServerList(_) => ServerList::spec_packet_kind(),
            AnyPacket::SelectGameServer(_) => SelectGameServer::spec_packet_kind(),
            AnyPacket::SwitchServer(_) => SwitchServer::spec_packet_kind(),
            AnyPacket::GameServerLogin(_) => GameServerLogin::spec_packet_kind(),
            AnyPacket::SupportedFeatures(_) => SupportedFeatures::spec_packet_kind(),
            AnyPacket::CharacterList(_) => CharacterList::spec_packet_kind(),
            AnyPacket::CreateCharacterClassic(_) => CreateCharacterClassic::spec_packet_kind(),
            AnyPacket::CreateCharacterEnhanced(_) => CreateCharacterEnhanced::spec_packet_kind(),
            AnyPacket::DeleteCharacter(_) => DeleteCharacter::spec_packet_kind(),
            AnyPacket::SelectCharacter(_) => SelectCharacter::spec_packet_kind(),
            AnyPacket::ClientVersionRequest(_) => ClientVersionRequest::spec_packet_kind(),
            AnyPacket::BeginEnterWorld(_) => BeginEnterWorld::spec_packet_kind(),
            AnyPacket::EndEnterWorld(_) => EndEnterWorld::spec_packet_kind(),
            AnyPacket::ShowPublicHouses(_) => ShowPublicHouses::spec_packet_kind(),
            AnyPacket::Ping(_) => Ping::spec_packet_kind(),
            AnyPacket::ExtendedCommand(_) => ExtendedCommand::spec_packet_kind(),
            AnyPacket::ExtendedCommandAos(_) => ExtendedCommandAos::spec_packet_kind(),
            AnyPacket::Move(_) => Move::spec_packet_kind(),
            AnyPacket::MoveConfirm(_) => MoveConfirm::spec_packet_kind(),
            AnyPacket::MoveReject(_) => MoveReject::spec_packet_kind(),
            AnyPacket::SingleClick(_) => SingleClick::spec_packet_kind(),
            AnyPacket::DoubleClick(_) => DoubleClick::spec_packet_kind(),
            AnyPacket::PickUpEntity(_) => PickUpEntity::spec_packet_kind(),
            AnyPacket::DropEntity(_) => DropEntity::spec_packet_kind(),
            AnyPacket::MoveEntityReject(_) => MoveEntityReject::spec_packet_kind(),
            AnyPacket::PickTarget(_) => PickTarget::spec_packet_kind(),
            AnyPacket::OpenChatWindow(_) => OpenChatWindow::spec_packet_kind(),
            AnyPacket::OpenPaperDoll(_) => OpenPaperDoll::spec_packet_kind(),
            AnyPacket::OpenContainer(_) => OpenContainer::spec_packet_kind(),
            AnyPacket::OpenGump(_) => OpenGump::spec_packet_kind(),
            AnyPacket::OpenGumpCompressed(_) => OpenGumpCompressed::spec_packet_kind(),
            AnyPacket::GumpResult(_) => GumpResult::spec_packet_kind(),
            AnyPacket::AsciiTextMessage(_) => AsciiTextMessage::spec_packet_kind(),
            AnyPacket::UnicodeTextMessage(_) => UnicodeTextMessage::spec_packet_kind(),
            AnyPacket::LocalisedTextMessage(_) => LocalisedTextMessage::spec_packet_kind(),
            AnyPacket::AsciiTextMessageRequest(_) => AsciiTextMessageRequest::spec_packet_kind(),
            AnyPacket::UnicodeTextMessageRequest(_) => UnicodeTextMessageRequest::spec_packet_kind(),
            AnyPacket::PlayMusic(_) => PlayMusic::spec_packet_kind(),
            AnyPacket::PlaySoundEffect(_) => PlaySoundEffect::spec_packet_kind(),
            AnyPacket::SetTime(_) => SetTime::spec_packet_kind(),
            AnyPacket::ChangeSeason(_) => ChangeSeason::spec_packet_kind(),
            AnyPacket::ViewRange(_) => ViewRange::spec_packet_kind(),
            AnyPacket::EntityRequest(_) => EntityRequest::spec_packet_kind(),
            AnyPacket::UpsertEntityLegacy(_) => UpsertEntityLegacy::spec_packet_kind(),
            AnyPacket::UpsertEntityWorld(_) => UpsertEntityWorld::spec_packet_kind(),
            AnyPacket::DeleteEntity(_) => DeleteEntity::spec_packet_kind(),
            AnyPacket::UpsertLocalPlayer(_) => UpsertLocalPlayer::spec_packet_kind(),
            AnyPacket::UpsertEntityCharacter(_) => UpsertEntityCharacter::spec_packet_kind(),
            AnyPacket::UpsertEntityEquipped(_) => UpsertEntityEquipped::spec_packet_kind(),
            AnyPacket::UpsertEntityContained(_) => UpsertEntityContained::spec_packet_kind(),
            AnyPacket::UpsertContainerContents(_) => UpsertContainerContents::spec_packet_kind(),
            AnyPacket::EntityTooltipVersion(_) => EntityTooltipVersion::spec_packet_kind(),
            AnyPacket::EntityTooltip(_) => EntityTooltip::spec_packet_kind(),
            AnyPacket::UpsertEntityStats(_) => UpsertEntityStats::spec_packet_kind(),
            AnyPacket::AttackRequest(_) => AttackRequest::spec_packet_kind(),
            AnyPacket::SetAttackTarget(_) => SetAttackTarget::spec_packet_kind(),
            AnyPacket::Swing(_) => Swing::spec_packet_kind(),
            AnyPacket::CharacterAnimation(_) => CharacterAnimation::spec_packet_kind(),
            AnyPacket::CharacterPredefinedAnimation(_) => CharacterPredefinedAnimation::spec_packet_kind(),
        }
    }

    pub open spec fn spec_fixed_length(&self, client_version: ClientVersion) -> Option<usize> {
        match self {
            AnyPacket::Seed(_) => Seed::spec_fixed_length(client_version),
            AnyPacket::AccountLogin(_) => AccountLogin::spec_fixed_length(client_version),
            AnyPacket::ServerList(_) => ServerList::spec_fixed_length(client_version),
            AnyPacket::SelectGameServer(_) => SelectGameServer::spec_fixed_length(client_version),
            AnyPacket::SwitchServer(_) => SwitchServer::spec_fixed_length(client_version),
            AnyPacket::GameServerLogin(_) => GameServerLogin::spec_fixed_length(client_version),
            AnyPacket::SupportedFeatures(_) => SupportedFeatures::spec_fixed_length(client_version),
            AnyPacket::CharacterList(_) => CharacterList::spec_fixed_length(client_version),
            AnyPacket::CreateCharacterClassic(_) => CreateCharacterClassic::spec_fixed_length(client_version),
            AnyPacket::CreateCharacterEnhanced(_) => CreateCharacterEnhanced::spec_fixed_length(client_version),
            AnyPacket::DeleteCharacter(_) => DeleteCharacter::spec_fixed_length(client_version),
            AnyPacket::SelectCharacter(_) => SelectCharacter::spec_fixed_length(client_version),
            AnyPacket::ClientVersionRequest(_) => ClientVersionRequest::spec_fixed_length(client_version),
            AnyPacket::BeginEnterWorld(_) => BeginEnterWorld::spec_fixed_length(client_version),
            AnyPacket::EndEnterWorld(_) => EndEnterWorld::spec_fixed_length(client_version),
            AnyPacket::ShowPublicHouses(_) => ShowPublicHouses::spec_fixed_length(client_version),
            AnyPacket::Ping(_) => Ping::spec_fixed_length(client_version),
            AnyPacket::ExtendedCommand(_) => ExtendedCommand::spec_fixed_length(client_version),
            AnyPacket::ExtendedCommandAos(_) => ExtendedCommandAos::spec_fixed_length(client_version),
            AnyPacket::Move(_) => Move::spec_fixed_length(client_version),
            AnyPacket::MoveConfirm(_) => MoveConfirm::spec_fixed_length(client_version),
            AnyPacket::MoveReject(_) => MoveReject::spec_fixed_length(client_version),
            AnyPacket::SingleClick(_) => SingleClick::spec_fixed_length(client_version),
            AnyPacket::DoubleClick(_) => DoubleClick::spec_fixed_length(client_version),
            AnyPacket::PickUpEntity(_) => PickUpEntity::spec_fixed_length(client_version),
            AnyPacket::DropEntity(_) => DropEntity::spec_fixed_length(client_version),
            AnyPacket::MoveEntityReject(_) => MoveEntityReject::spec_fixed_length(client_version),
            AnyPacket::PickTarget(_) => PickTarget::spec_fixed_length(client_version),
            AnyPacket::OpenChatWindow(_) => OpenChatWindow::spec_fixed_length(client_version),
            AnyPacket::OpenPaperDoll(_) => OpenPaperDoll::spec_fixed_length(client_version),
            AnyPacket::OpenContainer(_) => OpenContainer::spec_fixed_length(client_version),
            AnyPacket::OpenGump(_) => OpenGump::spec_fixed_length(client_version),
            AnyPacket::OpenGumpCompressed(_) => OpenGumpCompressed::spec_fixed_length(client_version),
            AnyPacket::GumpResult(_) => GumpResult::spec_fixed_length(client_version),
            AnyPacket::AsciiTextMessage(_) => AsciiTextMessage::spec_fixed_length(client_version),
            AnyPacket::UnicodeTextMessage(_) => UnicodeTextMessage::spec_fixed_length(client_version),
            AnyPacket::LocalisedTextMessage(_) => LocalisedTextMessage::spec_fixed_length(client_version),
            AnyPacket::AsciiTextMessageRequest(_) => AsciiTextMessageRequest::spec_fixed_length(client_version),
            AnyPacket::UnicodeTextMessageRequest(_) => UnicodeTextMessageRequest::spec_fixed_length(client_version),
            AnyPacket::PlayMusic(_) => PlayMusic::spec_fixed_length(client_version),
            AnyPacket::PlaySoundEffect(_) => PlaySoundEffect::spec_fixed_length(client_version),
            AnyPacket::SetTime(_) => SetTime::spec_fixed_length(client_version),
            AnyPacket::ChangeSeason(_) => ChangeSeason::spec_fixed_length(client_version),
            AnyPacket::ViewRange(_) => ViewRange::spec_fixed_length(client_version),
            AnyPacket::EntityRequest(_) => EntityRequest::spec_fixed_length(client_version),
            AnyPacket::UpsertEntityLegacy(_) => UpsertEntityLegacy::spec_fixed_length(client_version),
            AnyPacket::UpsertEntityWorld(_) => UpsertEntityWorld::spec_fixed_length(client_version),
            AnyPacket::DeleteEntity(_) => DeleteEntity::spec_fixed_length(client_version),
            AnyPacket::UpsertLocalPlayer(_) => UpsertLocalPlayer::spec_fixed_length(client_version),
            AnyPacket::UpsertEntityCharacter(_) => UpsertEntityCharacter::spec_fixed_length(client_version),
            AnyPacket::UpsertEntityEquipped(_) => UpsertEntityEquipped::spec_fixed_length(client_version),
            AnyPacket::UpsertEntityContained(_) => UpsertEntityContained::spec_fixed_length(client_version),
            AnyPacket::UpsertContainerContents(_) => UpsertContainerContents::spec_fixed_length(client_version),
            AnyPacket::EntityTooltipVersion(_) => EntityTooltipVersion::spec_fixed_length(client_version),
            AnyPacket::EntityTooltip(_) => EntityTooltip::spec_fixed_length(client_version),
            AnyPacket::UpsertEntityStats(_) => UpsertEntityStats::spec_fixed_length(client_version),
            AnyPacket::AttackRequest(_) => AttackRequest::spec_fixed_length(client_version),
            AnyPacket::SetAttackTarget(_) => SetAttackTarget::spec_fixed_length(client_version),
            AnyPacket::Swing(_) => Swing::spec_fixed_length(client_version),
            AnyPacket::CharacterAnimation(_) => CharacterAnimation::spec_fixed_length(client_version),
            AnyPacket::CharacterPredefinedAnimation(_) => CharacterPredefinedAnimation::spec_fixed_length(client_version),
        }
    }

    pub open spec fn spec_wire(&self, client_version: ClientVersion, to_client: bool) -> Seq<u8> {
        match self {
            AnyPacket::Seed(p) => p.wire(client_version, to_client),
            AnyPacket::AccountLogin(p) => p.wire(client_version, to_client),
            AnyPacket::ServerList(p) => p.wire(client_version, to_client),
            AnyPacket::SelectGameServer(p) => p.wire(client_version, to_client),
            AnyPacket::SwitchServer(p) => p.wire(client_version, to_client),
            AnyPacket::GameServerLogin(p) => p.wire(client_version, to_client),
            AnyPacket::SupportedFeatures(p) => p.wire(client_version, to_client),
            AnyPacket::CharacterList(p) => p.wire(client_version, to_client),
            AnyPacket::CreateCharacterClassic(p) => p.wire(client_version, to_client),
            AnyPacket::CreateCharacterEnhanced(p) => p.wire(client_version, to_client),
            AnyPacket::DeleteCharacter(p) => p.wire(client_version, to_client),
            AnyPacket::SelectCharacter(p) => p.wire(client_version, to_client),
            AnyPacket::ClientVersionRequest(p) => p.wire(client_version, to_client),
            AnyPacket::BeginEnterWorld(p) => p.wire(client_version, to_client),
            AnyPacket::EndEnterWorld(p) => p.wire(client_version, to_client),
            AnyPacket::ShowPublicHouses(p) => p.wire(client_version, to_client),
            AnyPacket::Ping(p) => p.wire(client_version, to_client),
            AnyPacket::ExtendedCommand(p) => p.wire(client_version, to_client),
            AnyPacket::ExtendedCommandAos(p) => p.wire(client_version, to_client),
            AnyPacket::Move(p) => p.wire(client_version, to_client),
            AnyPacket::MoveConfirm(p) => p.wire(client_version, to_client),
            AnyPacket::MoveReject(p) => p.wire(client_version, to_client),
            AnyPacket::SingleClick(p) => p.wire(client_version, to_client),
            AnyPacket::DoubleClick(p) => p.wire(client_version, to_client),
            AnyPacket::PickUpEntity(p) => p.wire(client_version, to_client),
            AnyPacket::DropEntity(p) => p.wire(client_version, to_client),
            AnyPacket::MoveEntityReject(p) => p.wire(client_version, to_client),
            AnyPacket::PickTarget(p) => p.wire(client_version, to_client),
            AnyPacket::OpenChatWindow(p) => p.wire(client_version, to_client),
            AnyPacket::OpenPaperDoll(p) => p.wire(client_version, to_client),
            AnyPacket::OpenContainer(p) => p.wire(client_version, to_client),
            AnyPacket::OpenGump(p) => p.wire(client_version, to_client),
            AnyPacket::OpenGumpCompressed(p) => p.wire(client_version, to_client),
            AnyPacket::GumpResult(p) => p.wire(client_version, to_client),
            AnyPacket::AsciiTextMessage(p) => p.wire(client_version, to_client),
            AnyPacket::UnicodeTextMessage(p) => p.wire(client_version, to_client),
            AnyPacket::LocalisedTextMessage(p) => p.wire(client_version, to_client),
            AnyPacket::AsciiTextMessageRequest(p) => p.wire(client_version, to_client),
            AnyPacket::UnicodeTextMessageRequest(p) => p.wire(client_version, to_client),
            AnyPacket::PlayMusic(p) => p.wire(client_version, to_client),
            AnyPacket::PlaySoundEffect(p) => p.wire(client_version, to_client),
            AnyPacket::SetTime(p) => p.wire(client_version, to_client),
            AnyPacket::ChangeSeason(p) => p.wire(client_version, to_client),
            AnyPacket::ViewRange(p) => p.wire(client_version, to_client),
            AnyPacket::EntityRequest(p) => p.wire(client_version, to_client),
            AnyPacket::UpsertEntityLegacy(p) => p.wire(client_version, to_client),
            AnyPacket::UpsertEntityWorld(p) => p.wire(client_version, to_client),
            AnyPacket::DeleteEntity(p) => p.wire(client_version, to_client),
            AnyPacket::UpsertLocalPlayer(p) => p.wire(client_version, to_client),
            AnyPacket::UpsertEntityCharacter(p) => p.wire(client_version, to_client),
            AnyPacket::UpsertEntityEquipped(p) => p.wire(client_version, to_client),
            AnyPacket::UpsertEntityContained(p) => p.wire(client_version, to_client),
            AnyPacket::UpsertContainerContents(p) => p.wire(client_version, to_client),
            AnyPacket::EntityTooltipVersion(p) => p.wire(client_version, to_client),
            AnyPacket::EntityTooltip(p) => p.wire(client_version, to_client),
            AnyPacket::UpsertEntityStats(p) => p.wire(client_version, to_client),
            AnyPacket::AttackRequest(p) => p.wire(client_version, to_client),
            AnyPacket::SetAttackTarget(p) => p.wire(client_version, to_client),
            AnyPacket::Swing(p) => p.wire(client_version, to_client),
            AnyPacket::CharacterAnimation(p) => p.wire(client_version, to_client),
            AnyPacket::CharacterPredefinedAnimation(p) => p.wire(client_version, to_client),
        }
    }

    pub open spec fn spec_can_encode(&self, client_version: ClientVersion, to_client: bool) -> bool {
        match self {
            AnyPacket::Seed(p) => p.can_encode(client_version, to_client),
            AnyPacket::AccountLogin(p) => p.can_encode(client_version, to_client),
            AnyPacket::ServerList(p) => p.can_encode(client_version, to_client),
            AnyPacket::SelectGameServer(p) => p.can_encode(client_version, to_client),
            AnyPacket::SwitchServer(p) => p.can_encode(client_version, to_client),
            AnyPacket::GameServerLogin(p) => p.can_encode(client_version, to_client),
            AnyPacket::SupportedFeatures(p) => p.can_encode(client_version, to_client),
            AnyPacket::CharacterList(p) => p.can_encode(client_version, to_client),
            AnyPacket::CreateCharacterClassic(p) => p.can_encode(client_version, to_client),
            AnyPacket::CreateCharacterEnhanced(p) => p.can_encode(client_version, to_client),
            AnyPacket::DeleteCharacter(p) => p.can_encode(client_version, to_client),
            AnyPacket::SelectCharacter(p) => p.can_encode(client_version, to_client),
            AnyPacket::ClientVersionRequest(p) => p.can_encode(client_version, to_client),
            AnyPacket::BeginEnterWorld(p) => p.can_encode(client_version, to_client),
            AnyPacket::EndEnterWorld(p) => p.can_encode(client_version, to_client),
            AnyPacket::ShowPublicHouses(p) => p.can_encode(client_version, to_client),
            AnyPacket::Ping(p) => p.can_encode(client_version, to_client),
            AnyPacket::ExtendedCommand(p) => p.can_encode(client_version, to_client),
            AnyPacket::ExtendedCommandAos(p) => p.can_encode(client_version, to_client),
            AnyPacket::Move(p) => p.can_encode(client_version, to_client),
            AnyPacket::MoveConfirm(p) => p.can_encode(client_version, to_client),
            AnyPacket::MoveReject(p) => p.can_encode(client_version, to_client),
            AnyPacket::SingleClick(p) => p.can_encode(client_version, to_client),
            AnyPacket::DoubleClick(p) => p.can_encode(client_version, to_client),
            AnyPacket::PickUpEntity(p) => p.can_encode(client_version, to_client),
            AnyPacket::DropEntity(p) => p.can_encode(client_version, to_client),
            AnyPacket::MoveEntityReject(p) => p.can_encode(client_version, to_client),
            AnyPacket::PickTarget(p) => p.can_encode(client_version, to_client),
            AnyPacket::OpenChatWindow(p) => p.can_encode(client_version, to_client),
            AnyPacket::OpenPaperDoll(p) => p.can_encode(client_version, to_client),
            AnyPacket::OpenContainer(p) => p.can_encode(client_version, to_client),
            AnyPacket::OpenGump(p) => p.can_encode(client_version, to_client),
            AnyPacket::OpenGumpCompressed(p) => p.can_encode(client_version, to_client),
            AnyPacket::GumpResult(p) => p.can_encode(client_version, to_client),
            AnyPacket::AsciiTextMessage(p) => p.can_encode(client_version, to_client),
            AnyPacket::UnicodeTextMessage(p) => p.can_encode(client_version, to_client),
            AnyPacket::LocalisedTextMessage(p) => p.can_encode(client_version, to_client),
            AnyPacket::AsciiTextMessageRequest(p) => p.can_encode(client_version, to_client),
            AnyPacket::UnicodeTextMessageRequest(p) => p.can_encode(client_version, to_client),
            AnyPacket::PlayMusic(p) => p.can_encode(client_version, to_client),
            AnyPacket::PlaySoundEffect(p) => p.can_encode(client_version, to_client),
            AnyPacket::SetTime(p) => p.can_encode(client_version, to_client),
            AnyPacket::ChangeSeason(p) => p.can_encode(client_version, to_client),
            AnyPacket::ViewRange(p) => p.can_encode(client_version, to_client),
            AnyPacket::EntityRequest(p) => p.can_encode(client_version, to_client),
            AnyPacket::UpsertEntityLegacy(p) => p.can_encode(client_version, to_client),
            AnyPacket::UpsertEntityWorld(p) => p.can_encode(client_version, to_client),
            AnyPacket::DeleteEntity(p) => p.can_encode(client_version, to_client),
            AnyPacket::UpsertLocalPlayer(p) => p.can_encode(client_version, to_client),
            AnyPacket::UpsertEntityCharacter(p) => p.can_encode(client_version, to_client),
            AnyPacket::UpsertEntityEquipped(p) => p.can_encode(client_version, to_client),
            AnyPacket::UpsertEntityContained(p) => p.can_encode(client_version, to_client),
            AnyPacket::UpsertContainerContents(p) => p.can_encode(client_version, to_client),
            AnyPacket::EntityTooltipVersion(p) => p.can_encode(client_version, to_client),
            AnyPacket::EntityTooltip(p) => p.can_encode(client_version, to_client),
            AnyPacket::UpsertEntityStats(p) => p.can_encode(client_version, to_client),
            AnyPacket::AttackRequest(p) => p.can_encode(client_version, to_client),
            AnyPacket::SetAttackTarget(p) => p.can_encode(client_version, to_client),
            AnyPacket::Swing(p) => p.can_encode(client_version, to_client),
            AnyPacket::CharacterAnimation(p) => p.can_encode(client_version, to_client),
            AnyPacket::CharacterPredefinedAnimation(p) => p.can_encode(client_version, to_client),
        }
    }

    /// What encoding the packet has written when it fails.
    pub open spec fn spec_wire_on_error(&self, client_version: ClientVersion, to_client: bool) -> Seq<u8> {
        match self {
            AnyPacket::Seed(p) => p.wire_on_error(client_version, to_client),
            AnyPacket::AccountLogin(p) => p.wire_on_error(client_version, to_client),
            AnyPacket::ServerList(p) => p.wire_on_error(client_version, to_client),
            AnyPacket::SelectGameServer(p) => p.wire_on_error(client_version, to_client),
            AnyPacket::SwitchServer(p) => p.wire_on_error(client_version, to_client),
            AnyPacket::GameServerLogin(p) => p.wire_on_error(client_version, to_client),
            AnyPacket::SupportedFeatures(p) => p.wire_on_error(client_version, to_client),
            AnyPacket::CharacterList(p) => p.wire_on_error(client_version, to_client),
            AnyPacket::CreateCharacterClassic(p) => p.wire_on_error(client_version, to_client),
            AnyPacket::CreateCharacterEnhanced(p) => p.wire_on_error(client_version, to_client),
            AnyPacket::DeleteCharacter(p) => p.wire_on_error(client_version, to_client),
            AnyPacket::SelectCharacter(p) => p.wire_on_error(client_version, to_client),
            AnyPacket::ClientVersionRequest(p) => p.wire_on_error(client_version, to_client),
            AnyPacket::BeginEnterWorld(p) => p.wire_on_error(client_version, to_client),
            AnyPacket::EndEnterWorld(p) => p.wire_on_error(client_version, to_client),
            AnyPacket::ShowPublicHouses(p) => p.wire_on_error(client_version, to_client),
            AnyPacket::Ping(p) => p.wire_on_error(client_version, to_client),
            AnyPacket::ExtendedCommand(p) => p.wire_on_error(client_version, to_client),
            AnyPacket::ExtendedCommandAos(p) => p.wire_on_error(client_version, to_client),
            AnyPacket::Move(p) => p.wire_on_error(client_version, to_client),
            AnyPacket::MoveConfirm(p) => p.wire_on_error(client_version, to_client),
            AnyPacket::MoveReject(p) => p.wire_on_error(client_version, to_client),
            AnyPacket::SingleClick(p) => p.wire_on_error(client_version, to_client),
            AnyPacket::DoubleClick(p) => p.wire_on_error(client_version, to_client),
            AnyPacket::PickUpEntity(p) => p.wire_on_error(client_version, to_client),
            AnyPacket::DropEntity(p) => p.wire_on_error(client_version, to_client),
            AnyPacket::MoveEntityReject(p) => p.wire_on_error(client_version, to_client),
            AnyPacket::PickTarget(p) => p.wire_on_error(client_version, to_client),
            AnyPacket::OpenChatWindow(p) => p.wire_on_error(client_version, to_client),
            AnyPacket::OpenPaperDoll(p) => p.wire_on_error(client_version, to_client),
            AnyPacket::OpenContainer(p) => p.wire_on_error(client_version, to_client),
            AnyPacket::OpenGump(p) => p.wire_on_error(client_version, to_client),
            AnyPacket::OpenGumpCompressed(p) => p.wire_on_error(client_version, to_client),
            AnyPacket::GumpResult(p) => p.wire_on_error(client_version, to_client),
            AnyPacket::AsciiTextMessage(p) => p.wire_on_error(client_version, to_client),
            AnyPacket::UnicodeTextMessage(p) => p.wire_on_error(client_version, to_client),
            AnyPacket::LocalisedTextMessage(p) => p.wire_on_error(client_version, to_client),
            AnyPacket::AsciiTextMessageRequest(p) => p.wire_on_error(client_version, to_client),
            AnyPacket::UnicodeTextMessageRequest(p) => p.wire_on_error(client_version, to_client),
            AnyPacket::PlayMusic(p) => p.wire_on_error(client_version, to_client),
            AnyPacket::PlaySoundEffect(p) => p.wire_on_error(client_version, to_client),
            AnyPacket::SetTime(p) => p.wire_on_error(client_version, to_client),
            AnyPacket::ChangeSeason(p) => p.wire_on_error(client_version, to_client),
            AnyPacket::ViewRange(p) => p.wire_on_error(client_version, to_client),
            AnyPacket::EntityRequest(p) => p.wire_on_error(client_version, to_client),
            AnyPacket::UpsertEntityLegacy(p) => p.wire_on_error(client_version, to_client),
            AnyPacket::UpsertEntityWorld(p) => p.wire_on_error(client_version, to_client),
            AnyPacket::DeleteEntity(p) => p.wire_on_error(client_version, to_client),
            AnyPacket::UpsertLocalPlayer(p) => p.wire_on_error(client_version, to_client),
            AnyPacket::UpsertEntityCharacter(p) => p.wire_on_error(client_version, to_client),
            AnyPacket::UpsertEntityEquipped(p) => p.wire_on_error(client_version, to_client),
            AnyPacket::UpsertEntityContained(p) => p.wire_on_error(client_version, to_client),
            AnyPacket::UpsertContainerContents(p) => p.wire_on_error(client_version, to_client),
            AnyPacket::EntityTooltipVersion(p) => p.wire_on_error(client_version, to_client),
            AnyPacket::EntityTooltip(p) => p.wire_on_error(client_version, to_client),
            AnyPacket::UpsertEntityStats(p) => p.wire_on_error(client_version, to_client),
            AnyPacket::AttackRequest(p) => p.wire_on_error(client_version, to_client),
            AnyPacket::SetAttackTarget(p) => p.wire_on_error(client_version, to_client),
            AnyPacket::Swing(p) => p.wire_on_error(client_version, to_client),
            AnyPacket::CharacterAnimation(p) => p.wire_on_error(client_version, to_client),
            AnyPacket::CharacterPredefinedAnimation(p) => p.wire_on_error(client_version, to_client),
        }
    }

    /// Whether encoding this packet and decoding the bytes gives it back.
    pub open spec fn spec_roundtrips(&self, client_version: ClientVersion, to_client: bool) -> bool {
        match self {
            AnyPacket::Seed(p) => p.roundtrips(client_version, to_client),
            AnyPacket::AccountLogin(p) => p.roundtrips(client_version, to_client),
            AnyPacket::ServerList(p) => p.roundtrips(client_version, to_client),
            AnyPacket::SelectGameServer(p) => p.roundtrips(client_version, to_client),
            AnyPacket::SwitchServer(p) => p.roundtrips(client_version, to_client),
            AnyPacket::GameServerLogin(p) => p.roundtrips(client_version, to_client),
            AnyPacket::SupportedFeatures(p) => p.roundtrips(client_version, to_client),
            AnyPacket::CharacterList(p) => p.roundtrips(client_version, to_client),
            AnyPacket::CreateCharacterClassic(p) => p.roundtrips(client_version, to_client),
            AnyPacket::CreateCharacterEnhanced(p) => p.roundtrips(client_version, to_client),
            AnyPacket::DeleteCharacter(p) => p.roundtrips(client_version, to_client),
            AnyPacket::SelectCharacter(p) => p.roundtrips(client_version, to_client),
            AnyPacket::ClientVersionRequest(p) => p.roundtrips(client_version, to_client),
            AnyPacket::BeginEnterWorld(p) => p.roundtrips(client_version, to_client),
            AnyPacket::EndEnterWorld(p) => p.roundtrips(client_version, to_client),
            AnyPacket::ShowPublicHouses(p) => p.roundtrips(client_version, to_client),
            AnyPacket::Ping(p) => p.roundtrips(client_version, to_client),
            AnyPacket::ExtendedCommand(p) => p.roundtrips(client_version, to_client),
            AnyPacket::ExtendedCommandAos(p) => p.roundtrips(client_version, to_client),
            AnyPacket::Move(p) => p.roundtrips(client_version, to_client),
            AnyPacket::MoveConfirm(p) => p.roundtrips(client_version, to_client),
            AnyPacket::MoveReject(p) => p.roundtrips(client_version, to_client),
            AnyPacket::SingleClick(p) => p.roundtrips(client_version, to_client),
            AnyPacket::DoubleClick(p) => p.roundtrips(client_version, to_client),
            AnyPacket::PickUpEntity(p) => p.roundtrips(client_version, to_client),
            AnyPacket::DropEntity(p) => p.roundtrips(client_version, to_client),
            AnyPacket::MoveEntityReject(p) => p.roundtrips(client_version, to_client),
            AnyPacket::PickTarget(p) => p.roundtrips(client_version, to_client),
            AnyPacket::OpenChatWindow(p) => p.roundtrips(client_version, to_client),
            AnyPacket::OpenPaperDoll(p) => p.roundtrips(client_version, to_client),
            AnyPacket::OpenContainer(p) => p.roundtrips(client_version, to_client),
            AnyPacket::OpenGump(p) => p.roundtrips(client_version, to_client),
            AnyPacket::OpenGumpCompressed(p) => p.roundtrips(client_version, to_client),
            AnyPacket::GumpResult(p) => p.roundtrips(client_version, to_client),
            AnyPacket::AsciiTextMessage(p) => p.roundtrips(client_version, to_client),
            AnyPacket::UnicodeTextMessage(p) => p.roundtrips(client_version, to_client),
            AnyPacket::LocalisedTextMessage(p) => p.roundtrips(client_version, to_client),
            AnyPacket::AsciiTextMessageRequest(p) => p.roundtrips(client_version, to_client),
            AnyPacket::UnicodeTextMessageRequest(p) => p.roundtrips(client_version, to_client),
            AnyPacket::PlayMusic(p) => p.roundtrips(client_version, to_client),
            AnyPacket::PlaySoundEffect(p) => p.roundtrips(client_version, to_client),
            AnyPacket::SetTime(p) => p.roundtrips(client_version, to_client),
            AnyPacket::ChangeSeason(p) => p.roundtrips(client_version, to_client),
            AnyPacket::ViewRange(p) => p.roundtrips(client_version, to_client),
            AnyPacket::EntityRequest(p) => p.roundtrips(client_version, to_client),
            AnyPacket::UpsertEntityLegacy(p) => p.roundtrips(client_version, to_client),
            AnyPacket::UpsertEntityWorld(p) => p.roundtrips(client_version, to_client),
            AnyPacket::DeleteEntity(p) => p.roundtrips(client_version, to_client),
            AnyPacket::UpsertLocalPlayer(p) => p.roundtrips(client_version, to_client),
            AnyPacket::UpsertEntityCharacter(p) => p.roundtrips(client_version, to_client),
            AnyPacket::UpsertEntityEquipped(p) => p.roundtrips(client_version, to_client),
            AnyPacket::UpsertEntityContained(p) => p.roundtrips(client_version, to_client),
            AnyPacket::UpsertContainerContents(p) => p.roundtrips(client_version, to_client),
            AnyPacket::EntityTooltipVersion(p) => p.roundtrips(client_version, to_client),
            AnyPacket::EntityTooltip(p) => p.roundtrips(client_version, to_client),
            AnyPacket::UpsertEntityStats(p) => p.roundtrips(client_version, to_client),
            AnyPacket::AttackRequest(p) => p.roundtrips(client_version, to_client),
            AnyPacket::SetAttackTarget(p) => p.roundtrips(client_version, to_client),
            AnyPacket::Swing(p) => p.roundtrips(client_version, to_client),
            AnyPacket::CharacterAnimation(p) => p.roundtrips(client_version, to_client),
            AnyPacket::CharacterPredefinedAnimation(p) => p.roundtrips(client_version, to_client),
        }
    }

    /// The registration of this packet's own type.
    pub open spec fn spec_registration(&self) -> PacketRegistration {
        match self {
            AnyPacket::Seed(_) => PacketRegistration::Seed,
            AnyPacket::AccountLogin(_) => PacketRegistration::AccountLogin,
            AnyPacket::ServerList(_) => PacketRegistration::ServerList,
            AnyPacket::SelectGameServer(_) => PacketRegistration::SelectGameServer,
            AnyPacket::SwitchServer(_) => PacketRegistration::SwitchServer,
            AnyPacket::GameServerLogin(_) => PacketRegistration::GameServerLogin,
            AnyPacket::SupportedFeatures(_) => PacketRegistration::SupportedFeatures,
            AnyPacket::CharacterList(_) => PacketRegistration::CharacterList,
            AnyPacket::CreateCharacterClassic(_) => PacketRegistration::CreateCharacterClassic,
            AnyPacket::CreateCharacterEnhanced(_) => PacketRegistration::CreateCharacterEnhanced,
            AnyPacket::DeleteCharacter(_) => PacketRegistration::DeleteCharacter,
            AnyPacket::SelectCharacter(_) => PacketRegistration::SelectCharacter,
            AnyPacket::ClientVersionRequest(_) => PacketRegistration::ClientVersionRequest,
            AnyPacket::BeginEnterWorld(_) => PacketRegistration::BeginEnterWorld,
            AnyPacket::EndEnterWorld(_) => PacketRegistration::EndEnterWorld,
            AnyPacket::ShowPublicHouses(_) => PacketRegistration::ShowPublicHouses,
            AnyPacket::Ping(_) => PacketRegistration::Ping,
            AnyPacket::ExtendedCommand(_) => PacketRegistration::ExtendedCommand,
            AnyPacket::ExtendedCommandAos(_) => PacketRegistration::ExtendedCommandAos,
            AnyPacket::Move(_) => PacketRegistration::Move,
            AnyPacket::MoveConfirm(_) => PacketRegistration::MoveConfirm,
            AnyPacket::MoveReject(_) => PacketRegistration::MoveReject,
            AnyPacket::SingleClick(_) => PacketRegistration::SingleClick,
            AnyPacket::DoubleClick(_) => PacketRegistration::DoubleClick,
            AnyPacket::PickUpEntity(_) => PacketRegistration::PickUpEntity,
            AnyPacket::DropEntity(_) => PacketRegistration::DropEntity,
            AnyPacket::MoveEntityReject(_) => PacketRegistration::MoveEntityReject,
            AnyPacket::PickTarget(_) => PacketRegistration::PickTarget,
            AnyPacket::OpenChatWindow(_) => PacketRegistration::OpenChatWindow,
            AnyPacket::OpenPaperDoll(_) => PacketRegistration::OpenPaperDoll,
            AnyPacket::OpenContainer(_) => PacketRegistration::OpenContainer,
            AnyPacket::OpenGump(_) => PacketRegistration::OpenGump,
            AnyPacket::OpenGumpCompressed(_) => PacketRegistration::OpenGumpCompressed,
            AnyPacket::GumpResult(_) => PacketRegistration::GumpResult,
            AnyPacket::AsciiTextMessage(_) => PacketRegistration::AsciiTextMessage,
            AnyPacket::UnicodeTextMessage(_) => PacketRegistration::UnicodeTextMessage,
            AnyPacket::LocalisedTextMessage(_) => PacketRegistration::LocalisedTextMessage,
            AnyPacket::AsciiTextMessageRequest(_) => PacketRegistration::AsciiTextMessageRequest,
            AnyPacket::UnicodeTextMessageRequest(_) => PacketRegistration::UnicodeTextMessageRequest,
            AnyPacket::PlayMusic(_) => PacketRegistration::PlayMusic,
            AnyPacket::PlaySoundEffect(_) => PacketRegistration::PlaySoundEffect,
            AnyPacket::SetTime(_) => PacketRegistration::SetTime,
            AnyPacket::ChangeSeason(_) => PacketRegistration::ChangeSeason,
            AnyPacket::ViewRange(_) => PacketRegistration::ViewRange,
            AnyPacket::EntityRequest(_) => PacketRegistration::EntityRequest,
            AnyPacket::UpsertEntityLegacy(_) => PacketRegistration::UpsertEntityLegacy,
            AnyPacket::UpsertEntityWorld(_) => PacketRegistration::UpsertEntityWorld,
            AnyPacket::DeleteEntity(_) => PacketRegistration::DeleteEntity,
            AnyPacket::UpsertLocalPlayer(_) => PacketRegistration::UpsertLocalPlayer,
            AnyPacket::UpsertEntityCharacter(_) => PacketRegistration::UpsertEntityCharacter,
            AnyPacket::UpsertEntityEquipped(_) => PacketRegistration::UpsertEntityEquipped,
            AnyPacket::UpsertEntityContained(_) => PacketRegistration::UpsertEntityContained,
            AnyPacket::UpsertContainerContents(_) => PacketRegistration::UpsertContainerContents,
            AnyPacket::EntityTooltipVersion(_) => PacketRegistration::EntityTooltipVersion,
            AnyPacket::EntityTooltip(_) => PacketRegistration::EntityTooltip,
            AnyPacket::UpsertEntityStats(_) => PacketRegistration::UpsertEntityStats,
            AnyPacket::AttackRequest(_) => PacketRegistration::AttackRequest,
            AnyPacket::SetAttackTarget(_) => PacketRegistration::SetAttackTarget,
            AnyPacket::Swing(_) => PacketRegistration::Swing,
            AnyPacket::CharacterAnimation(_) => PacketRegistration::CharacterAnimation,
            AnyPacket::CharacterPredefinedAnimation(_) => PacketRegistration::CharacterPredefinedAnimation,
        }
    }

    /// The packet type that the kind byte introduces, if any.
    pub fn registration_for(packet_kind: u8) -> (r: Option<PacketRegistration>)
        ensures
            r == PacketRegistration::spec_for_kind(packet_kind),
    {
        PacketRegistration::for_kind(packet_kind)
    }

    /// The packet inside, when it has type `T`; else this packet back.
    pub fn downcast<T: AnyDowncast>(self) -> (r: Result<T, AnyPacket>)
        ensures
            T::spec_is_held(self) <==> r is Ok,
            r matches Ok(p) ==> p.spec_as_any() == self,
            r matches Err(e) ==> e == self,
    {
        T::downcast(self)
    }

    /// The packet inside, when it has type `T`.
    pub fn downcast_ref<T: AnyDowncast>(&self) -> (r: Option<&T>)
        ensures
            T::spec_is_held(*self) <==> r is Some,
            r matches Some(p) ==> p.spec_as_any() == *self,
    {
        T::downcast_ref(self)
    }

    /// The packet inside, to change in place, when it has type `T`.
    pub fn downcast_mut<T: AnyDowncast>(&mut self) -> (r: Option<&mut T>)
        ensures
            T::spec_is_held(*old(self)) <==> r is Some,
            r matches Some(p) ==> (*p).spec_as_any() == *old(self) && *final(self) == (*final(p)).spec_as_any(),
            r is None ==> *final(self) == *old(self),
    {
        T::downcast_mut(self)
    }
}

/// What a packet of any type encodes to, its own type decodes back: the
/// bytes decode without error, to this very packet.
pub proof fn lemma_any_roundtrip(a: AnyPacket, client_version: ClientVersion, to_client: bool)
    requires
        a.spec_can_encode(client_version, to_client),
        a.spec_roundtrips(client_version, to_client),
    ensures
        a.spec_registration().spec_decode_error(client_version, !to_client, a.spec_wire(client_version, to_client)) is None,
        a.spec_registration().spec_decodes_to(client_version, !to_client, a.spec_wire(client_version, to_client), a),
        a.spec_registration().spec_fixed_length(client_version) == a.spec_fixed_length(client_version),
        a.spec_registration().spec_packet_kind() == a.spec_packet_kind(),
{
    match a {
        AnyPacket::Seed(p) => lemma_roundtrip_seed(p, client_version, to_client),
        AnyPacket::AccountLogin(p) => lemma_roundtrip_account_login(p, client_version, to_client),
        AnyPacket::ServerList(p) => lemma_roundtrip_server_list(p, client_version, to_client),
        AnyPacket::SelectGameServer(p) => lemma_roundtrip_select_game_server(p, client_version, to_client),
        AnyPacket::SwitchServer(p) => lemma_roundtrip_switch_server(p, client_version, to_client),
        AnyPacket::GameServerLogin(p) => lemma_roundtrip_game_server_login(p, client_version, to_client),
        AnyPacket::SupportedFeatures(p) => lemma_roundtrip_supported_features(p, client_version, to_client),
        AnyPacket::CharacterList(p) => lemma_roundtrip_character_list(p, client_version, to_client),
        AnyPacket::CreateCharacterClassic(p) => lemma_roundtrip_create_character_classic(p, client_version, to_client),
        AnyPacket::CreateCharacterEnhanced(p) => lemma_roundtrip_create_character_enhanced(p, client_version, to_client),
        AnyPacket::DeleteCharacter(p) => lemma_roundtrip_delete_character(p, client_version, to_client),
        AnyPacket::SelectCharacter(p) => lemma_roundtrip_select_character(p, client_version, to_client),
        AnyPacket::ClientVersionRequest(p) => lemma_roundtrip_client_version_request(p, client_version, to_client),
        AnyPacket::BeginEnterWorld(p) => lemma_roundtrip_begin_enter_world(p, client_version, to_client),
        AnyPacket::EndEnterWorld(p) => lemma_roundtrip_end_enter_world(p, client_version, to_client),
        AnyPacket::ShowPublicHouses(p) => lemma_roundtrip_show_public_houses(p, client_version, to_client),
        AnyPacket::Ping(p) => lemma_roundtrip_ping(p, client_version, to_client),
        AnyPacket::ExtendedCommand(p) => lemma_roundtrip_extended_command(p, client_version, to_client),
        AnyPacket::ExtendedCommandAos(p) => lemma_roundtrip_extended_command_aos(p, client_version, to_client),
        AnyPacket::Move(p) => lemma_roundtrip_move(p, client_version, to_client),
        AnyPacket::MoveConfirm(p) => lemma_roundtrip_move_confirm(p, client_version, to_client),
        AnyPacket::MoveReject(p) => lemma_roundtrip_move_reject(p, client_version, to_client),
        AnyPacket::SingleClick(p) => lemma_roundtrip_single_click(p, client_version, to_client),
        AnyPacket::DoubleClick(p) => lemma_roundtrip_double_click(p, client_version, to_client),
        AnyPacket::PickUpEntity(p) => lemma_roundtrip_pick_up_entity(p, client_version, to_client),
        AnyPacket::DropEntity(p) => lemma_roundtrip_drop_entity(p, client_version, to_client),
        AnyPacket::MoveEntityReject(p) => lemma_roundtrip_move_entity_reject(p, client_version, to_client),
        AnyPacket::PickTarget(p) => lemma_roundtrip_pick_target(p, client_version, to_client),
        AnyPacket::OpenChatWindow(p) => lemma_roundtrip_open_chat_window(p, client_version, to_client),
        AnyPacket::OpenPaperDoll(p) => lemma_roundtrip_open_paper_doll(p, client_version, to_client),
        AnyPacket::OpenContainer(p) => lemma_roundtrip_open_container(p, client_version, to_client),
        AnyPacket::OpenGump(p) => lemma_roundtrip_open_gump(p, client_version, to_client),
        AnyPacket::OpenGumpCompressed(p) => lemma_roundtrip_open_gump_compressed(p, client_version, to_client),
        AnyPacket::GumpResult(p) => lemma_roundtrip_gump_result(p, client_version, to_client),
        AnyPacket::AsciiTextMessage(p) => lemma_roundtrip_ascii_text_message(p, client_version, to_client),
        AnyPacket::UnicodeTextMessage(p) => lemma_roundtrip_unicode_text_message(p, client_version, to_client),
        AnyPacket::LocalisedTextMessage(p) => lemma_roundtrip_localised_text_message(p, client_version, to_client),
        AnyPacket::AsciiTextMessageRequest(p) => lemma_roundtrip_ascii_text_message_request(p, client_version, to_client),
        AnyPacket::UnicodeTextMessageRequest(p) => lemma_roundtrip_unicode_text_message_request(p, client_version, to_client),
        AnyPacket::PlayMusic(p) => lemma_roundtrip_play_music(p, client_version, to_client),
        AnyPacket::PlaySoundEffect(p) => lemma_roundtrip_play_sound_effect(p, client_version, to_client),
        AnyPacket::SetTime(p) => lemma_roundtrip_set_time(p, client_version, to_client),
        AnyPacket::ChangeSeason(p) => lemma_roundtrip_change_season(p, client_version, to_client),
        AnyPacket::ViewRange(p) => lemma_roundtrip_view_range(p, client_version, to_client),
        AnyPacket::EntityRequest(p) => lemma_roundtrip_entity_request(p, client_version, to_client),
        AnyPacket::UpsertEntityLegacy(p) => lemma_roundtrip_upsert_entity_legacy(p, client_version, to_client),
        AnyPacket::UpsertEntityWorld(p) => lemma_roundtrip_upsert_entity_world(p, client_version, to_client),
        AnyPacket::DeleteEntity(p) => lemma_roundtrip_delete_entity(p, client_version, to_client),
        AnyPacket::UpsertLocalPlayer(p) => lemma_roundtrip_upsert_local_player(p, client_version, to_client),
        AnyPacket::UpsertEntityCharacter(p) => lemma_roundtrip_upsert_entity_character(p, client_version, to_client),
        AnyPacket::UpsertEntityEquipped(p) => lemma_roundtrip_upsert_entity_equipped(p, client_version, to_client),
        AnyPacket::UpsertEntityContained(p) => lemma_roundtrip_upsert_entity_contained(p, client_version, to_client),
        AnyPacket::UpsertContainerContents(p) => lemma_roundtrip_upsert_container_contents(p, client_version, to_client),
        AnyPacket::EntityTooltipVersion(p) => lemma_roundtrip_entity_tooltip_version(p, client_version, to_client),
        AnyPacket::EntityTooltip(p) => lemma_roundtrip_entity_tooltip(p, client_version, to_client),
        AnyPacket::UpsertEntityStats(p) => lemma_roundtrip_upsert_entity_stats(p, client_version, to_client),
        AnyPacket::AttackRequest(p) => lemma_roundtrip_attack_request(p, client_version, to_client),
        AnyPacket::SetAttackTarget(p) => lemma_roundtrip_set_attack_target(p, client_version, to_client),
        AnyPacket::Swing(p) => lemma_roundtrip_swing(p, client_version, to_client),
        AnyPacket::CharacterAnimation(p) => lemma_roundtrip_character_animation(p, client_version, to_client),
        AnyPacket::CharacterPredefinedAnimation(p) => lemma_roundtrip_character_predefined_animation(p, client_version, to_client),
    }
}

#[verifier::rlimit(40)]
proof fn lemma_roundtrip_seed(p: Seed, client_version: ClientVersion, to_client: bool)
    requires
        p.can_encode(client_version, to_client),
        p.roundtrips(client_version, to_client),
    ensures
        PacketRegistration::Seed.spec_decode_error(client_version, !to_client, p.wire(client_version, to_client)) is None,
        PacketRegistration::Seed.spec_decodes_to(client_version, !to_client, p.wire(client_version, to_client), AnyPacket::Seed(p)),
{
    let w = p.wire(client_version, to_client);
    assert(PacketRegistration::Seed.spec_decode_error(client_version, !to_client, w) == Seed::decode_error(client_version, !to_client, w)) by {
        reveal(PacketRegistration::spec_decode_error);
    }
    assert(PacketRegistration::Seed.spec_decodes_to(client_version, !to_client, w, AnyPacket::Seed(p)) == Seed::decodes_to(client_version, !to_client, w, p)) by {
        reveal(PacketRegistration::spec_decodes_to);
    }
    p.lemma_roundtrip(client_version, to_client);
}

#[verifier::rlimit(40)]
proof fn lemma_roundtrip_account_login(p: AccountLogin, client_version: ClientVersion, to_client: bool)
    requires
        p.can_encode(client_version, to_client),
        p.roundtrips(client_version, to_client),
    ensures
        PacketRegistration::AccountLogin.spec_decode_error(client_version, !to_client, p.wire(client_version, to_client)) is None,
        PacketRegistration::AccountLogin.spec_decodes_to(client_version, !to_client, p.wire(client_version, to_client), AnyPacket::AccountLogin(p)),
{
    let w = p.wire(client_version, to_client);
    assert(PacketRegistration::AccountLogin.spec_decode_error(client_version, !to_client, w) == AccountLogin::decode_error(client_version, !to_client, w)) by {
        reveal(PacketRegistration::spec_decode_error);
    }
    assert(PacketRegistration::AccountLogin.spec_decodes_to(client_version, !to_client, w, AnyPacket::AccountLogin(p)) == AccountLogin::decodes_to(client_version, !to_client, w, p)) by {
        reveal(PacketRegistration::spec_decodes_to);
    }
    p.lemma_roundtrip(client_version, to_client);
}

#[verifier::rlimit(40)]
proof fn lemma_roundtrip_server_list(p: ServerList, client_version: ClientVersion, to_client: bool)
    requires
        p.can_encode(client_version, to_client),
        p.roundtrips(client_version, to_client),
    ensures
        PacketRegistration::ServerList.spec_decode_error(client_version, !to_client, p.wire(client_version, to_client)) is None,
        PacketRegistration::ServerList.spec_decodes_to(client_version, !to_client, p.wire(client_version, to_client), AnyPacket::ServerList(p)),
{
    let w = p.wire(client_version, to_client);
    assert(PacketRegistration::ServerList.spec_decode_error(client_version, !to_client, w) == ServerList::decode_error(client_version, !to_client, w)) by {
        reveal(PacketRegistration::spec_decode_error);
    }
    assert(PacketRegistration::ServerList.spec_decodes_to(client_version, !to_client, w, AnyPacket::ServerList(p)) == ServerList::decodes_to(client_version, !to_client, w, p)) by {
        reveal(PacketRegistration::spec_decodes_to);
    }
    p.lemma_roundtrip(client_version, to_client);
}

#[verifier::rlimit(40)]
proof fn lemma_roundtrip_select_game_server(p: SelectGameServer, client_version: ClientVersion, to_client: bool)
    requires
        p.can_encode(client_version, to_client),
        p.roundtrips(client_version, to_client),
    ensures
        PacketRegistration::SelectGameServer.spec_decode_error(client_version, !to_client, p.wire(client_version, to_client)) is None,
        PacketRegistration::SelectGameServer.spec_decodes_to(client_version, !to_client, p.wire(client_version, to_client), AnyPacket::SelectGameServer(p)),
{
    let w = p.wire(client_version, to_client);
    assert(PacketRegistration::SelectGameServer.spec_decode_error(client_version, !to_client, w) == SelectGameServer::decode_error(client_version, !to_client, w)) by {
        reveal(PacketRegistration::spec_decode_error);
    }
    assert(PacketRegistration::SelectGameServer.spec_decodes_to(client_version, !to_client, w, AnyPacket::SelectGameServer(p)) == SelectGameServer::decodes_to(client_version, !to_client, w, p)) by {
        reveal(PacketRegistration::spec_decodes_to);
    }
    p.lemma_roundtrip(client_version, to_client);
}

#[verifier::rlimit(40)]
proof fn lemma_roundtrip_switch_server(p: SwitchServer, client_version: ClientVersion, to_client: bool)
    requires
        p.can_encode(client_version, to_client),
        p.roundtrips(client_version, to_client),
    ensures
        PacketRegistration::SwitchServer.spec_decode_error(client_version, !to_client, p.wire(client_version, to_client)) is None,
        PacketRegistration::SwitchServer.spec_decodes_to(client_version, !to_client, p.wire(client_version, to_client), AnyPacket::SwitchServer(p)),
{
    let w = p.wire(client_version, to_client);
    assert(PacketRegistration::SwitchServer.spec_decode_error(client_version, !to_client, w) == SwitchServer::decode_error(client_version, !to_client, w)) by {
        reveal(PacketRegistration::spec_decode_error);
    }
    assert(PacketRegistration::SwitchServer.spec_decodes_to(client_version, !to_client, w, AnyPacket::SwitchServer(p)) == SwitchServer::decodes_to(client_version, !to_client, w, p)) by {
        reveal(PacketRegistration::spec_decodes_to);
    }
    p.lemma_roundtrip(client_version, to_client);
}

#[verifier::rlimit(40)]
proof fn lemma_roundtrip_game_server_login(p: GameServerLogin, client_version: ClientVersion, to_client: bool)
    requires
        p.can_encode(client_version, to_client),
        p.roundtrips(client_version, to_client),
    ensures
        PacketRegistration::GameServerLogin.spec_decode_error(client_version, !to_client, p.wire(client_version, to_client)) is None,
        PacketRegistration::GameServerLogin.spec_decodes_to(client_version, !to_client, p.wire(client_version, to_client), AnyPacket::GameServerLogin(p)),
{
    let w = p.wire(client_version, to_client);
    assert(PacketRegistration::GameServerLogin.spec_decode_error(client_version, !to_client, w) == GameServerLogin::decode_error(client_version, !to_client, w)) by {
        reveal(PacketRegistration::spec_decode_error);
    }
    assert(PacketRegistration::GameServerLogin.spec_decodes_to(client_version, !to_client, w, AnyPacket::GameServerLogin(p)) == GameServerLogin::decodes_to(client_version, !to_client, w, p)) by {
        reveal(PacketRegistration::spec_decodes_to);
    }
    p.lemma_roundtrip(client_version, to_client);
}

#[verifier::rlimit(40)]
proof fn lemma_roundtrip_supported_features(p: SupportedFeatures, client_version: ClientVersion, to_client: bool)
    requires
        p.can_encode(client_version, to_client),
        p.roundtrips(client_version, to_client),
    ensures
        PacketRegistration::SupportedFeatures.spec_decode_error(client_version, !to_client, p.wire(client_version, to_client)) is None,
        PacketRegistration::SupportedFeatures.spec_decodes_to(client_version, !to_client, p.wire(client_version, to_client), AnyPacket::SupportedFeatures(p)),
{
    let w = p.wire(client_version, to_client);
    assert(PacketRegistration::SupportedFeatures.spec_decode_error(client_version, !to_client, w) == SupportedFeatures::decode_error(client_version, !to_client, w)) by {
        reveal(PacketRegistration::spec_decode_error);
    }
    assert(PacketRegistration::SupportedFeatures.spec_decodes_to(client_version, !to_client, w, AnyPacket::SupportedFeatures(p)) == SupportedFeatures::decodes_to(client_version, !to_client, w, p)) by {
        reveal(PacketRegistration::spec_decodes_to);
    }
    p.lemma_roundtrip(client_version, to_client);
}

#[verifier::rlimit(40)]
proof fn lemma_roundtrip_character_list(p: CharacterList, client_version: ClientVersion, to_client: bool)
    requires
        p.can_encode(client_version, to_client),
        p.roundtrips(client_version, to_client),
    ensures
        PacketRegistration::CharacterList.spec_decode_error(client_version, !to_client, p.wire(client_version, to_client)) is None,
        PacketRegistration::CharacterList.spec_decodes_to(client_version, !to_client, p.wire(client_version, to_client), AnyPacket::CharacterList(p)),
{
    let w = p.wire(client_version, to_client);
    assert(PacketRegistration::CharacterList.spec_decode_error(client_version, !to_client, w) == CharacterList::decode_error(client_version, !to_client, w)) by {
        reveal(PacketRegistration::spec_decode_error);
    }
    assert(PacketRegistration::CharacterList.spec_decodes_to(client_version, !to_client, w, AnyPacket::CharacterList(p)) == CharacterList::decodes_to(client_version, !to_client, w, p)) by {
        reveal(PacketRegistration::spec_decodes_to);
    }
    p.lemma_roundtrip(client_version, to_client);
}

#[verifier::rlimit(40)]
proof fn lemma_roundtrip_create_character_classic(p: CreateCharacterClassic, client_version: ClientVersion, to_client: bool)
    requires
        p.can_encode(client_version, to_client),
        p.roundtrips(client_version, to_client),
    ensures
        PacketRegistration::CreateCharacterClassic.spec_decode_error(client_version, !to_client, p.wire(client_version, to_client)) is None,
        PacketRegistration::CreateCharacterClassic.spec_decodes_to(client_version, !to_client, p.wire(client_version, to_client), AnyPacket::CreateCharacterClassic(p)),
{
    let w = p.wire(client_version, to_client);
    assert(PacketRegistration::CreateCharacterClassic.spec_decode_error(client_version, !to_client, w) == CreateCharacterClassic::decode_error(client_version, !to_client, w)) by {
        reveal(PacketRegistration::spec_decode_error);
    }
    assert(PacketRegistration::CreateCharacterClassic.spec_decodes_to(client_version, !to_client, w, AnyPacket::CreateCharacterClassic(p)) == CreateCharacterClassic::decodes_to(client_version, !to_client, w, p)) by {
        reveal(PacketRegistration::spec_decodes_to);
    }
    p.lemma_roundtrip(client_version, to_client);
}

#[verifier::rlimit(40)]
proof fn lemma_roundtrip_create_character_enhanced(p: CreateCharacterEnhanced, client_version: ClientVersion, to_client: bool)
    requires
        p.can_encode(client_version, to_client),
        p.roundtrips(client_version, to_client),
    ensures
        PacketRegistration::CreateCharacterEnhanced.spec_decode_error(client_version, !to_client, p.wire(client_version, to_client)) is None,
        PacketRegistration::CreateCharacterEnhanced.spec_decodes_to(client_version, !to_client, p.wire(client_version, to_client), AnyPacket::CreateCharacterEnhanced(p)),
{
    let w = p.wire(client_version, to_client);
    assert(PacketRegistration::CreateCharacterEnhanced.spec_decode_error(client_version, !to_client, w) == CreateCharacterEnhanced::decode_error(client_version, !to_client, w)) by {
        reveal(PacketRegistration::spec_decode_error);
    }
    assert(PacketRegistration::CreateCharacterEnhanced.spec_decodes_to(client_version, !to_client, w, AnyPacket::CreateCharacterEnhanced(p)) == CreateCharacterEnhanced::decodes_to(client_version, !to_client, w, p)) by {
        reveal(PacketRegistration::spec_decodes_to);
    }
    p.lemma_roundtrip(client_version, to_client);
}

#[verifier::rlimit(40)]
proof fn lemma_roundtrip_delete_character(p: DeleteCharacter, client_version: ClientVersion, to_client: bool)
    requires
        p.can_encode(client_version, to_client),
        p.roundtrips(client_version, to_client),
    ensures
        PacketRegistration::DeleteCharacter.spec_decode_error(client_version, !to_client, p.wire(client_version, to_client)) is None,
        PacketRegistration::DeleteCharacter.spec_decodes_to(client_version, !to_client, p.wire(client_version, to_client), AnyPacket::DeleteCharacter(p)),
{
    let w = p.wire(client_version, to_client);
    assert(PacketRegistration::DeleteCharacter.spec_decode_error(client_version, !to_client, w) == DeleteCharacter::decode_error(client_version, !to_client, w)) by {
        reveal(PacketRegistration::spec_decode_error);
    }
    assert(PacketRegistration::DeleteCharacter.spec_decodes_to(client_version, !to_client, w, AnyPacket::DeleteCharacter(p)) == DeleteCharacter::decodes_to(client_version, !to_client, w, p)) by {
        reveal(PacketRegistration::spec_decodes_to);
    }
    p.lemma_roundtrip(client_version, to_client);
}

#[verifier::rlimit(40)]
proof fn lemma_roundtrip_select_character(p: SelectCharacter, client_version: ClientVersion, to_client: bool)
    requires
        p.can_encode(client_version, to_client),
        p.roundtrips(client_version, to_client),
    ensures
        PacketRegistration::SelectCharacter.spec_decode_error(client_version, !to_client, p.wire(client_version, to_client)) is None,
        PacketRegistration::SelectCharacter.spec_decodes_to(client_version, !to_client, p.wire(client_version, to_client), AnyPacket::SelectCharacter(p)),
{
    let w = p.wire(client_version, to_client);
    assert(PacketRegistration::SelectCharacter.spec_decode_error(client_version, !to_client, w) == SelectCharacter::decode_error(client_version, !to_client, w)) by {
        reveal(PacketRegistration::spec_decode_error);
    }
    assert(PacketRegistration::SelectCharacter.spec_decodes_to(client_version, !to_client, w, AnyPacket::SelectCharacter(p)) == SelectCharacter::decodes_to(client_version, !to_client, w, p)) by {
        reveal(PacketRegistration::spec_decodes_to);
    }
    p.lemma_roundtrip(client_version, to_client);
}

#[verifier::rlimit(40)]
proof fn lemma_roundtrip_client_version_request(p: ClientVersionRequest, client_version: ClientVersion, to_client: bool)
    requires
        p.can_encode(client_version, to_client),
        p.roundtrips(client_version, to_client),
    ensures
        PacketRegistration::ClientVersionRequest.spec_decode_error(client_version, !to_client, p.wire(client_version, to_client)) is None,
        PacketRegistration::ClientVersionRequest.spec_decodes_to(client_version, !to_client, p.wire(client_version, to_client), AnyPacket::ClientVersionRequest(p)),
{
    let w = p.wire(client_version, to_client);
    assert(PacketRegistration::ClientVersionRequest.spec_decode_error(client_version, !to_client, w) == ClientVersionRequest::decode_error(client_version, !to_client, w)) by {
        reveal(PacketRegistration::spec_decode_error);
    }
    assert(PacketRegistration::ClientVersionRequest.spec_decodes_to(client_version, !to_client, w, AnyPacket::ClientVersionRequest(p)) == ClientVersionRequest::decodes_to(client_version, !to_client, w, p)) by {
        reveal(PacketRegistration::spec_decodes_to);
    }
    p.lemma_roundtrip(client_version, to_client);
}

#[verifier::rlimit(40)]
proof fn lemma_roundtrip_begin_enter_world(p: BeginEnterWorld, client_version: ClientVersion, to_client: bool)
    requires
        p.can_encode(client_version, to_client),
        p.roundtrips(client_version, to_client),
    ensures
        PacketRegistration::BeginEnterWorld.spec_decode_error(client_version, !to_client, p.wire(client_version, to_client)) is None,
        PacketRegistration::BeginEnterWorld.spec_decodes_to(client_version, !to_client, p.wire(client_version, to_client), AnyPacket::BeginEnterWorld(p)),
{
    let w = p.wire(client_version, to_client);
    assert(PacketRegistration::BeginEnterWorld.spec_decode_error(client_version, !to_client, w) == BeginEnterWorld::decode_error(client_version, !to_client, w)) by {
        reveal(PacketRegistration::spec_decode_error);
    }
    assert(PacketRegistration::BeginEnterWorld.spec_decodes_to(client_version, !to_client, w, AnyPacket::BeginEnterWorld(p)) == BeginEnterWorld::decodes_to(client_version, !to_client, w, p)) by {
        reveal(PacketRegistration::spec_decodes_to);
    }
    p.lemma_roundtrip(client_version, to_client);
}

#[verifier::rlimit(40)]
proof fn lemma_roundtrip_end_enter_world(p: EndEnterWorld, client_version: ClientVersion, to_client: bool)
    requires
        p.can_encode(client_version, to_client),
        p.roundtrips(client_version, to_client),
    ensures
        PacketRegistration::EndEnterWorld.spec_decode_error(client_version, !to_client, p.wire(client_version, to_client)) is None,
        PacketRegistration::EndEnterWorld.spec_decodes_to(client_version, !to_client, p.wire(client_version, to_client), AnyPacket::EndEnterWorld(p)),
{
    let w = p.wire(client_version, to_client);
    assert(PacketRegistration::EndEnterWorld.spec_decode_error(client_version, !to_client, w) == EndEnterWorld::decode_error(client_version, !to_client, w)) by {
        reveal(PacketRegistration::spec_decode_error);
    }
    assert(PacketRegistration::EndEnterWorld.spec_decodes_to(client_version, !to_client, w, AnyPacket::EndEnterWorld(p)) == EndEnterWorld::decodes_to(client_version, !to_client, w, p)) by {
        reveal(PacketRegistration::spec_decodes_to);
    }
    p.lemma_roundtrip(client_version, to_client);
}

#[verifier::rlimit(40)]
proof fn lemma_roundtrip_show_public_houses(p: ShowPublicHouses, client_version: ClientVersion, to_client: bool)
    requires
        p.can_encode(client_version, to_client),
        p.roundtrips(client_version, to_client),
    ensures
        PacketRegistration::ShowPublicHouses.spec_decode_error(client_version, !to_client, p.wire(client_version, to_client)) is None,
        PacketRegistration::ShowPublicHouses.spec_decodes_to(client_version, !to_client, p.wire(client_version, to_client), AnyPacket::ShowPublicHouses(p)),
{
    let w = p.wire(client_version, to_client);
    assert(PacketRegistration::ShowPublicHouses.spec_decode_error(client_version, !to_client, w) == ShowPublicHouses::decode_error(client_version, !to_client, w)) by {
        reveal(PacketRegistration::spec_decode_error);
    }
    assert(PacketRegistration::ShowPublicHouses.spec_decodes_to(client_version, !to_client, w, AnyPacket::ShowPublicHouses(p)) == ShowPublicHouses::decodes_to(client_version, !to_client, w, p)) by {
        reveal(PacketRegistration::spec_decodes_to);
    }
    p.lemma_roundtrip(client_version, to_client);
}

#[verifier::rlimit(40)]
proof fn lemma_roundtrip_ping(p: Ping, client_version: ClientVersion, to_client: bool)
    requires
        p.can_encode(client_version, to_client),
        p.roundtrips(client_version, to_client),
    ensures
        PacketRegistration::Ping.spec_decode_error(client_version, !to_client, p.wire(client_version, to_client)) is None,
        PacketRegistration::Ping.spec_decodes_to(client_version, !to_client, p.wire(client_version, to_client), AnyPacket::Ping(p)),
{
    let w = p.wire(client_version, to_client);
    assert(PacketRegistration::Ping.spec_decode_error(client_version, !to_client, w) == Ping::decode_error(client_version, !to_client, w)) by {
        reveal(PacketRegistration::spec_decode_error);
    }
    assert(PacketRegistration::Ping.spec_decodes_to(client_version, !to_client, w, AnyPacket::Ping(p)) == Ping::decodes_to(client_version, !to_client, w, p)) by {
        reveal(PacketRegistration::spec_decodes_to);
    }
    p.lemma_roundtrip(client_version, to_client);
}

#[verifier::rlimit(40)]
proof fn lemma_roundtrip_extended_command(p: ExtendedCommand, client_version: ClientVersion, to_client: bool)
    requires
        p.can_encode(client_version, to_client),
        p.roundtrips(client_version, to_client),
    ensures
        PacketRegistration::ExtendedCommand.spec_decode_error(client_version, !to_client, p.wire(client_version, to_client)) is None,
        PacketRegistration::ExtendedCommand.spec_decodes_to(client_version, !to_client, p.wire(client_version, to_client), AnyPacket::ExtendedCommand(p)),
{
    let w = p.wire(client_version, to_client);
    assert(PacketRegistration::ExtendedCommand.spec_decode_error(client_version, !to_client, w) == ExtendedCommand::decode_error(client_version, !to_client, w)) by {
        reveal(PacketRegistration::spec_decode_error);
    }
    assert(PacketRegistration::ExtendedCommand.spec_decodes_to(client_version, !to_client, w, AnyPacket::ExtendedCommand(p)) == ExtendedCommand::decodes_to(client_version, !to_client, w, p)) by {
        reveal(PacketRegistration::spec_decodes_to);
    }
    p.lemma_roundtrip(client_version, to_client);
}

#[verifier::rlimit(40)]
proof fn lemma_roundtrip_extended_command_aos(p: ExtendedCommandAos, client_version: ClientVersion, to_client: bool)
    requires
        p.can_encode(client_version, to_client),
        p.roundtrips(client_version, to_client),
    ensures
        PacketRegistration::ExtendedCommandAos.spec_decode_error(client_version, !to_client, p.wire(client_version, to_client)) is None,
        PacketRegistration::ExtendedCommandAos.spec_decodes_to(client_version, !to_client, p.wire(client_version, to_client), AnyPacket::ExtendedCommandAos(p)),
{
    let w = p.wire(client_version, to_client);
    assert(PacketRegistration::ExtendedCommandAos.spec_decode_error(client_version, !to_client, w) == ExtendedCommandAos::decode_error(client_version, !to_client, w)) by {
        reveal(PacketRegistration::spec_decode_error);
    }
    assert(PacketRegistration::ExtendedCommandAos.spec_decodes_to(client_version, !to_client, w, AnyPacket::ExtendedCommandAos(p)) == ExtendedCommandAos::decodes_to(client_version, !to_client, w, p)) by {
        reveal(PacketRegistration::spec_decodes_to);
    }
    p.lemma_roundtrip(client_version, to_client);
}

#[verifier::rlimit(40)]
proof fn lemma_roundtrip_move(p: Move, client_version: ClientVersion, to_client: bool)
    requires
        p.can_encode(client_version, to_client),
        p.roundtrips(client_version, to_client),
    ensures
        PacketRegistration::Move.spec_decode_error(client_version, !to_client, p.wire(client_version, to_client)) is None,
        PacketRegistration::Move.spec_decodes_to(client_version, !to_client, p.wire(client_version, to_client), AnyPacket::Move(p)),
{
    let w = p.wire(client_version, to_client);
    assert(PacketRegistration::Move.spec_decode_error(client_version, !to_client, w) == Move::decode_error(client_version, !to_client, w)) by {
        reveal(PacketRegistration::spec_decode_error);
    }
    assert(PacketRegistration::Move.spec_decodes_to(client_version, !to_client, w, AnyPacket::Move(p)) == Move::decodes_to(client_version, !to_client, w, p)) by {
        reveal(PacketRegistration::spec_decodes_to);
    }
    p.lemma_roundtrip(client_version, to_client);
}

#[verifier::rlimit(40)]
proof fn lemma_roundtrip_move_confirm(p: MoveConfirm, client_version: ClientVersion, to_client: bool)
    requires
        p.can_encode(client_version, to_client),
        p.roundtrips(client_version, to_client),
    ensures
        PacketRegistration::MoveConfirm.spec_decode_error(client_version, !to_client, p.wire(client_version, to_client)) is None,
        PacketRegistration::MoveConfirm.spec_decodes_to(client_version, !to_client, p.wire(client_version, to_client), AnyPacket::MoveConfirm(p)),
{
    let w = p.wire(client_version, to_client);
    assert(PacketRegistration::MoveConfirm.spec_decode_error(client_version, !to_client, w) == MoveConfirm::decode_error(client_version, !to_client, w)) by {
        reveal(PacketRegistration::spec_decode_error);
    }
    assert(PacketRegistration::MoveConfirm.spec_decodes_to(client_version, !to_client, w, AnyPacket::MoveConfirm(p)) == MoveConfirm::decodes_to(client_version, !to_client, w, p)) by {
        reveal(PacketRegistration::spec_decodes_to);
    }
    p.lemma_roundtrip(client_version, to_client);
}

#[verifier::rlimit(40)]
proof fn lemma_roundtrip_move_reject(p: MoveReject, client_version: ClientVersion, to_client: bool)
    requires
        p.can_encode(client_version, to_client),
        p.roundtrips(client_version, to_client),
    ensures
        PacketRegistration::MoveReject.spec_decode_error(client_version, !to_client, p.wire(client_version, to_client)) is None,
        PacketRegistration::MoveReject.spec_decodes_to(client_version, !to_client, p.wire(client_version, to_client), AnyPacket::MoveReject(p)),
{
    let w = p.wire(client_version, to_client);
    assert(PacketRegistration::MoveReject.spec_decode_error(client_version, !to_client, w) == MoveReject::decode_error(client_version, !to_client, w)) by {
        reveal(PacketRegistration::spec_decode_error);
    }
    assert(PacketRegistration::MoveReject.spec_decodes_to(client_version, !to_client, w, AnyPacket::MoveReject(p)) == MoveReject::decodes_to(client_version, !to_client, w, p)) by {
        reveal(PacketRegistration::spec_decodes_to);
    }
    p.lemma_roundtrip(client_version, to_client);
}

#[verifier::rlimit(40)]
proof fn lemma_roundtrip_single_click(p: SingleClick, client_version: ClientVersion, to_client: bool)
    requires
        p.can_encode(client_version, to_client),
        p.roundtrips(client_version, to_client),
    ensures
        PacketRegistration::SingleClick.spec_decode_error(client_version, !to_client, p.wire(client_version, to_client)) is None,
        PacketRegistration::SingleClick.spec_decodes_to(client_version, !to_client, p.wire(client_version, to_client), AnyPacket::SingleClick(p)),
{
    let w = p.wire(client_version, to_client);
    assert(PacketRegistration::SingleClick.spec_decode_error(client_version, !to_client, w) == SingleClick::decode_error(client_version, !to_client, w)) by {
        reveal(PacketRegistration::spec_decode_error);
    }
    assert(PacketRegistration::SingleClick.spec_decodes_to(client_version, !to_client, w, AnyPacket::SingleClick(p)) == SingleClick::decodes_to(client_version, !to_client, w, p)) by {
        reveal(PacketRegistration::spec_decodes_to);
    }
    p.lemma_roundtrip(client_version, to_client);
}

#[verifier::rlimit(40)]
proof fn lemma_roundtrip_double_click(p: DoubleClick, client_version: ClientVersion, to_client: bool)
    requires
        p.can_encode(client_version, to_client),
        p.roundtrips(client_version, to_client),
    ensures
        PacketRegistration::DoubleClick.spec_decode_error(client_version, !to_client, p.wire(client_version, to_client)) is None,
        PacketRegistration::DoubleClick.spec_decodes_to(client_version, !to_client, p.wire(client_version, to_client), AnyPacket::DoubleClick(p)),
{
    let w = p.wire(client_version, to_client);
    assert(PacketRegistration::DoubleClick.spec_decode_error(client_version, !to_client, w) == DoubleClick::decode_error(client_version, !to_client, w)) by {
        reveal(PacketRegistration::spec_decode_error);
    }
    assert(PacketRegistration::DoubleClick.spec_decodes_to(client_version, !to_client, w, AnyPacket::DoubleClick(p)) == DoubleClick::decodes_to(client_version, !to_client, w, p)) by {
        reveal(PacketRegistration::spec_decodes_to);
    }
    p.lemma_roundtrip(client_version, to_client);
}

#[verifier::rlimit(40)]
proof fn lemma_roundtrip_pick_up_entity(p: PickUpEntity, client_version: ClientVersion, to_client: bool)
    requires
        p.can_encode(client_version, to_client),
        p.roundtrips(client_version, to_client),
    ensures
        PacketRegistration::PickUpEntity.spec_decode_error(client_version, !to_client, p.wire(client_version, to_client)) is None,
        PacketRegistration::PickUpEntity.spec_decodes_to(client_version, !to_client, p.wire(client_version, to_client), AnyPacket::PickUpEntity(p)),
{
    let w = p.wire(client_version, to_client);
    assert(PacketRegistration::PickUpEntity.spec_decode_error(client_version, !to_client, w) == PickUpEntity::decode_error(client_version, !to_client, w)) by {
        reveal(PacketRegistration::spec_decode_error);
    }
    assert(PacketRegistration::PickUpEntity.spec_decodes_to(client_version, !to_client, w, AnyPacket::PickUpEntity(p)) == PickUpEntity::decodes_to(client_version, !to_client, w, p)) by {
        reveal(PacketRegistration::spec_decodes_to);
    }
    p.lemma_roundtrip(client_version, to_client);
}

#[verifier::rlimit(40)]
proof fn lemma_roundtrip_drop_entity(p: DropEntity, client_version: ClientVersion, to_client: bool)
    requires
        p.can_encode(client_version, to_client),
        p.roundtrips(client_version, to_client),
    ensures
        PacketRegistration::DropEntity.spec_decode_error(client_version, !to_client, p.wire(client_version, to_client)) is None,
        PacketRegistration::DropEntity.spec_decodes_to(client_version, !to_client, p.wire(client_version, to_client), AnyPacket::DropEntity(p)),
{
    let w = p.wire(client_version, to_client);
    assert(PacketRegistration::DropEntity.spec_decode_error(client_version, !to_client, w) == DropEntity::decode_error(client_version, !to_client, w)) by {
        reveal(PacketRegistration::spec_decode_error);
    }
    assert(PacketRegistration::DropEntity.spec_decodes_to(client_version, !to_client, w, AnyPacket::DropEntity(p)) == DropEntity::decodes_to(client_version, !to_client, w, p)) by {
        reveal(PacketRegistration::spec_decodes_to);
    }
    p.lemma_roundtrip(client_version, to_client);
}

#[verifier::rlimit(40)]
proof fn lemma_roundtrip_move_entity_reject(p: MoveEntityReject, client_version: ClientVersion, to_client: bool)
    requires
        p.can_encode(client_version, to_client),
        p.roundtrips(client_version, to_client),
    ensures
        PacketRegistration::MoveEntityReject.spec_decode_error(client_version, !to_client, p.wire(client_version, to_client)) is None,
        PacketRegistration::MoveEntityReject.spec_decodes_to(client_version, !to_client, p.wire(client_version, to_client), AnyPacket::MoveEntityReject(p)),
{
    let w = p.wire(client_version, to_client);
    assert(PacketRegistration::MoveEntityReject.spec_decode_error(client_version, !to_client, w) == MoveEntityReject::decode_error(client_version, !to_client, w)) by {
        reveal(PacketRegistration::spec_decode_error);
    }
    assert(PacketRegistration::MoveEntityReject.spec_decodes_to(client_version, !to_client, w, AnyPacket::MoveEntityReject(p)) == MoveEntityReject::decodes_to(client_version, !to_client, w, p)) by {
        reveal(PacketRegistration::spec_decodes_to);
    }
    p.lemma_roundtrip(client_version, to_client);
}

#[verifier::rlimit(40)]
proof fn lemma_roundtrip_pick_target(p: PickTarget, client_version: ClientVersion, to_client: bool)
    requires
        p.can_encode(client_version, to_client),
        p.roundtrips(client_version, to_client),
    ensures
        PacketRegistration::PickTarget.spec_decode_error(client_version, !to_client, p.wire(client_version, to_client)) is None,
        PacketRegistration::PickTarget.spec_decodes_to(client_version, !to_client, p.wire(client_version, to_client), AnyPacket::PickTarget(p)),
{
    let w = p.wire(client_version, to_client);
    assert(PacketRegistration::PickTarget.spec_decode_error(client_version, !to_client, w) == PickTarget::decode_error(client_version, !to_client, w)) by {
        reveal(PacketRegistration::spec_decode_error);
    }
    assert(PacketRegistration::PickTarget.spec_decodes_to(client_version, !to_client, w, AnyPacket::PickTarget(p)) == PickTarget::decodes_to(client_version, !to_client, w, p)) by {
        reveal(PacketRegistration::spec_decodes_to);
    }
    p.lemma_roundtrip(client_version, to_client);
}

#[verifier::rlimit(40)]
proof fn lemma_roundtrip_open_chat_window(p: OpenChatWindow, client_version: ClientVersion, to_client: bool)
    requires
        p.can_encode(client_version, to_client),
        p.roundtrips(client_version, to_client),
    ensures
        PacketRegistration::OpenChatWindow.spec_decode_error(client_version, !to_client, p.wire(client_version, to_client)) is None,
        PacketRegistration::OpenChatWindow.spec_decodes_to(client_version, !to_client, p.wire(client_version, to_client), AnyPacket::OpenChatWindow(p)),
{
    let w = p.wire(client_version, to_client);
    assert(PacketRegistration::OpenChatWindow.spec_decode_error(client_version, !to_client, w) == OpenChatWindow::decode_error(client_version, !to_client, w)) by {
        reveal(PacketRegistration::spec_decode_error);
    }
    assert(PacketRegistration::OpenChatWindow.spec_decodes_to(client_version, !to_client, w, AnyPacket::OpenChatWindow(p)) == OpenChatWindow::decodes_to(client_version, !to_client, w, p)) by {
        reveal(PacketRegistration::spec_decodes_to);
    }
    p.lemma_roundtrip(client_version, to_client);
}

#[verifier::rlimit(40)]
proof fn lemma_roundtrip_open_paper_doll(p: OpenPaperDoll, client_version: ClientVersion, to_client: bool)
    requires
        p.can_encode(client_version, to_client),
        p.roundtrips(client_version, to_client),
    ensures
        PacketRegistration::OpenPaperDoll.spec_decode_error(client_version, !to_client, p.wire(client_version, to_client)) is None,
        PacketRegistration::OpenPaperDoll.spec_decodes_to(client_version, !to_client, p.wire(client_version, to_client), AnyPacket::OpenPaperDoll(p)),
{
    let w = p.wire(client_version, to_client);
    assert(PacketRegistration::OpenPaperDoll.spec_decode_error(client_version, !to_client, w) == OpenPaperDoll::decode_error(client_version, !to_client, w)) by {
        reveal(PacketRegistration::spec_decode_error);
    }
    assert(PacketRegistration::OpenPaperDoll.spec_decodes_to(client_version, !to_client, w, AnyPacket::OpenPaperDoll(p)) == OpenPaperDoll::decodes_to(client_version, !to_client, w, p)) by {
        reveal(PacketRegistration::spec_decodes_to);
    }
    p.lemma_roundtrip(client_version, to_client);
}

#[verifier::rlimit(40)]
proof fn lemma_roundtrip_open_container(p: OpenContainer, client_version: ClientVersion, to_client: bool)
    requires
        p.can_encode(client_version, to_client),
        p.roundtrips(client_version, to_client),
    ensures
        PacketRegistration::OpenContainer.spec_decode_error(client_version, !to_client, p.wire(client_version, to_client)) is None,
        PacketRegistration::OpenContainer.spec_decodes_to(client_version, !to_client, p.wire(client_version, to_client), AnyPacket::OpenContainer(p)),
{
    let w = p.wire(client_version, to_client);
    assert(PacketRegistration::OpenContainer.spec_decode_error(client_version, !to_client, w) == OpenContainer::decode_error(client_version, !to_client, w)) by {
        reveal(PacketRegistration::spec_decode_error);
    }
    assert(PacketRegistration::OpenContainer.spec_decodes_to(client_version, !to_client, w, AnyPacket::OpenContainer(p)) == OpenContainer::decodes_to(client_version, !to_client, w, p)) by {
        reveal(PacketRegistration::spec_decodes_to);
    }
    p.lemma_roundtrip(client_version, to_client);
}

#[verifier::rlimit(40)]
proof fn lemma_roundtrip_open_gump(p: OpenGump, client_version: ClientVersion, to_client: bool)
    requires
        p.can_encode(client_version, to_client),
        p.roundtrips(client_version, to_client),
    ensures
        PacketRegistration::OpenGump.spec_decode_error(client_version, !to_client, p.wire(client_version, to_client)) is None,
        PacketRegistration::OpenGump.spec_decodes_to(client_version, !to_client, p.wire(client_version, to_client), AnyPacket::OpenGump(p)),
{
    let w = p.wire(client_version, to_client);
    assert(PacketRegistration::OpenGump.spec_decode_error(client_version, !to_client, w) == OpenGump::decode_error(client_version, !to_client, w)) by {
        reveal(PacketRegistration::spec_decode_error);
    }
    assert(PacketRegistration::OpenGump.spec_decodes_to(client_version, !to_client, w, AnyPacket::OpenGump(p)) == OpenGump::decodes_to(client_version, !to_client, w, p)) by {
        reveal(PacketRegistration::spec_decodes_to);
    }
    p.lemma_roundtrip(client_version, to_client);
}

#[verifier::rlimit(40)]
proof fn lemma_roundtrip_open_gump_compressed(p: OpenGumpCompressed, client_version: ClientVersion, to_client: bool)
    requires
        p.can_encode(client_version, to_client),
        p.roundtrips(client_version, to_client),
    ensures
        PacketRegistration::OpenGumpCompressed.spec_decode_error(client_version, !to_client, p.wire(client_version, to_client)) is None,
        PacketRegistration::OpenGumpCompressed.spec_decodes_to(client_version, !to_client, p.wire(client_version, to_client), AnyPacket::OpenGumpCompressed(p)),
{
    let w = p.wire(client_version, to_client);
    assert(PacketRegistration::OpenGumpCompressed.spec_decode_error(client_version, !to_client, w) == OpenGumpCompressed::decode_error(client_version, !to_client, w)) by {
        reveal(PacketRegistration::spec_decode_error);
    }
    assert(PacketRegistration::OpenGumpCompressed.spec_decodes_to(client_version, !to_client, w, AnyPacket::OpenGumpCompressed(p)) == OpenGumpCompressed::decodes_to(client_version, !to_client, w, p)) by {
        reveal(PacketRegistration::spec_decodes_to);
    }
    p.lemma_roundtrip(client_version, to_client);
}

#[verifier::rlimit(40)]
proof fn lemma_roundtrip_gump_result(p: GumpResult, client_version: ClientVersion, to_client: bool)
    requires
        p.can_encode(client_version, to_client),
        p.roundtrips(client_version, to_client),
    ensures
        PacketRegistration::GumpResult.spec_decode_error(client_version, !to_client, p.wire(client_version, to_client)) is None,
        PacketRegistration::GumpResult.spec_decodes_to(client_version, !to_client, p.wire(client_version, to_client), AnyPacket::GumpResult(p)),
{
    let w = p.wire(client_version, to_client);
    assert(PacketRegistration::GumpResult.spec_decode_error(client_version, !to_client, w) == GumpResult::decode_error(client_version, !to_client, w)) by {
        reveal(PacketRegistration::spec_decode_error);
    }
    assert(PacketRegistration::GumpResult.spec_decodes_to(client_version, !to_client, w, AnyPacket::GumpResult(p)) == GumpResult::decodes_to(client_version, !to_client, w, p)) by {
        reveal(PacketRegistration::spec_decodes_to);
    }
    p.lemma_roundtrip(client_version, to_client);
}

#[verifier::rlimit(40)]
proof fn lemma_roundtrip_ascii_text_message(p: AsciiTextMessage, client_version: ClientVersion, to_client: bool)
    requires
        p.can_encode(client_version, to_client),
        p.roundtrips(client_version, to_client),
    ensures
        PacketRegistration::AsciiTextMessage.spec_decode_error(client_version, !to_client, p.wire(client_version, to_client)) is None,
        PacketRegistration::AsciiTextMessage.spec_decodes_to(client_version, !to_client, p.wire(client_version, to_client), AnyPacket::AsciiTextMessage(p)),
{
    let w = p.wire(client_version, to_client);
    assert(PacketRegistration::AsciiTextMessage.spec_decode_error(client_version, !to_client, w) == AsciiTextMessage::decode_error(client_version, !to_client, w)) by {
        reveal(PacketRegistration::spec_decode_error);
    }
    assert(PacketRegistration::AsciiTextMessage.spec_decodes_to(client_version, !to_client, w, AnyPacket::AsciiTextMessage(p)) == AsciiTextMessage::decodes_to(client_version, !to_client, w, p)) by {
        reveal(PacketRegistration::spec_decodes_to);
    }
    p.lemma_roundtrip(client_version, to_client);
}

#[verifier::rlimit(40)]
proof fn lemma_roundtrip_unicode_text_message(p: UnicodeTextMessage, client_version: ClientVersion, to_client: bool)
    requires
        p.can_encode(client_version, to_client),
        p.roundtrips(client_version, to_client),
    ensures
        PacketRegistration::UnicodeTextMessage.spec_decode_error(client_version, !to_client, p.wire(client_version, to_client)) is None,
        PacketRegistration::UnicodeTextMessage.spec_decodes_to(client_version, !to_client, p.wire(client_version, to_client), AnyPacket::UnicodeTextMessage(p)),
{
    let w = p.wire(client_version, to_client);
    assert(PacketRegistration::UnicodeTextMessage.spec_decode_error(client_version, !to_client, w) == UnicodeTextMessage::decode_error(client_version, !to_client, w)) by {
        reveal(PacketRegistration::spec_decode_error);
    }
    assert(PacketRegistration::UnicodeTextMessage.spec_decodes_to(client_version, !to_client, w, AnyPacket::UnicodeTextMessage(p)) == UnicodeTextMessage::decodes_to(client_version, !to_client, w, p)) by {
        reveal(PacketRegistration::spec_decodes_to);
    }
    p.lemma_roundtrip(client_version, to_client);
}

#[verifier::rlimit(40)]
proof fn lemma_roundtrip_localised_text_message(p: LocalisedTextMessage, client_version: ClientVersion, to_client: bool)
    requires
        p.can_encode(client_version, to_client),
        p.roundtrips(client_version, to_client),
    ensures
        PacketRegistration::LocalisedTextMessage.spec_decode_error(client_version, !to_client, p.wire(client_version, to_client)) is None,
        PacketRegistration::LocalisedTextMessage.spec_decodes_to(client_version, !to_client, p.wire(client_version, to_client), AnyPacket::LocalisedTextMessage(p)),
{
    let w = p.wire(client_version, to_client);
    assert(PacketRegistration::LocalisedTextMessage.spec_decode_error(client_version, !to_client, w) == LocalisedTextMessage::decode_error(client_version, !to_client, w)) by {
        reveal(PacketRegistration::spec_decode_error);
    }
    assert(PacketRegistration::LocalisedTextMessage.spec_decodes_to(client_version, !to_client, w, AnyPacket::LocalisedTextMessage(p)) == LocalisedTextMessage::decodes_to(client_version, !to_client, w, p)) by {
        reveal(PacketRegistration::spec_decodes_to);
    }
    p.lemma_roundtrip(client_version, to_client);
}

#[verifier::rlimit(40)]
proof fn lemma_roundtrip_ascii_text_message_request(p: AsciiTextMessageRequest, client_version: ClientVersion, to_client: bool)
    requires
        p.can_encode(client_version, to_client),
        p.roundtrips(client_version, to_client),
    ensures
        PacketRegistration::AsciiTextMessageRequest.spec_decode_error(client_version, !to_client, p.wire(client_version, to_client)) is None,
        PacketRegistration::AsciiTextMessageRequest.spec_decodes_to(client_version, !to_client, p.wire(client_version, to_client), AnyPacket::AsciiTextMessageRequest(p)),
{
    let w = p.wire(client_version, to_client);
    assert(PacketRegistration::AsciiTextMessageRequest.spec_decode_error(client_version, !to_client, w) == AsciiTextMessageRequest::decode_error(client_version, !to_client, w)) by {
        reveal(PacketRegistration::spec_decode_error);
    }
    assert(PacketRegistration::AsciiTextMessageRequest.spec_decodes_to(client_version, !to_client, w, AnyPacket::AsciiTextMessageRequest(p)) == AsciiTextMessageRequest::decodes_to(client_version, !to_client, w, p)) by {
        reveal(PacketRegistration::spec_decodes_to);
    }
    p.lemma_roundtrip(client_version, to_client);
}

#[verifier::rlimit(40)]
proof fn lemma_roundtrip_unicode_text_message_request(p: UnicodeTextMessageRequest, client_version: ClientVersion, to_client: bool)
    requires
        p.can_encode(client_version, to_client),
        p.roundtrips(client_version, to_client),
    ensures
        PacketRegistration::UnicodeTextMessageRequest.spec_decode_error(client_version, !to_client, p.wire(client_version, to_client)) is None,
        PacketRegistration::UnicodeTextMessageRequest.spec_decodes_to(client_version, !to_client, p.wire(client_version, to_client), AnyPacket::UnicodeTextMessageRequest(p)),
{
    let w = p.wire(client_version, to_client);
    assert(PacketRegistration::UnicodeTextMessageRequest.spec_decode_error(client_version, !to_client, w) == UnicodeTextMessageRequest::decode_error(client_version, !to_client, w)) by {
        reveal(PacketRegistration::spec_decode_error);
    }
    assert(PacketRegistration::UnicodeTextMessageRequest.spec_decodes_to(client_version, !to_client, w, AnyPacket::UnicodeTextMessageRequest(p)) == UnicodeTextMessageRequest::decodes_to(client_version, !to_client, w, p)) by {
        reveal(PacketRegistration::spec_decodes_to);
    }
    p.lemma_roundtrip(client_version, to_client);
}

#[verifier::rlimit(40)]
proof fn lemma_roundtrip_play_music(p: PlayMusic, client_version: ClientVersion, to_client: bool)
    requires
        p.can_encode(client_version, to_client),
        p.roundtrips(client_version, to_client),
    ensures
        PacketRegistration::PlayMusic.spec_decode_error(client_version, !to_client, p.wire(client_version, to_client)) is None,
        PacketRegistration::PlayMusic.spec_decodes_to(client_version, !to_client, p.wire(client_version, to_client), AnyPacket::PlayMusic(p)),
{
    let w = p.wire(client_version, to_client);
    assert(PacketRegistration::PlayMusic.spec_decode_error(client_version, !to_client, w) == PlayMusic::decode_error(client_version, !to_client, w)) by {
        reveal(PacketRegistration::spec_decode_error);
    }
    assert(PacketRegistration::PlayMusic.spec_decodes_to(client_version, !to_client, w, AnyPacket::PlayMusic(p)) == PlayMusic::decodes_to(client_version, !to_client, w, p)) by {
        reveal(PacketRegistration::spec_decodes_to);
    }
    p.lemma_roundtrip(client_version, to_client);
}

#[verifier::rlimit(40)]
proof fn lemma_roundtrip_play_sound_effect(p: PlaySoundEffect, client_version: ClientVersion, to_client: bool)
    requires
        p.can_encode(client_version, to_client),
        p.roundtrips(client_version, to_client),
    ensures
        PacketRegistration::PlaySoundEffect.spec_decode_error(client_version, !to_client, p.wire(client_version, to_client)) is None,
        PacketRegistration::PlaySoundEffect.spec_decodes_to(client_version, !to_client, p.wire(client_version, to_client), AnyPacket::PlaySoundEffect(p)),
{
    let w = p.wire(client_version, to_client);
    assert(PacketRegistration::PlaySoundEffect.spec_decode_error(client_version, !to_client, w) == PlaySoundEffect::decode_error(client_version, !to_client, w)) by {
        reveal(PacketRegistration::spec_decode_error);
    }
    assert(PacketRegistration::PlaySoundEffect.spec_decodes_to(client_version, !to_client, w, AnyPacket::PlaySoundEffect(p)) == PlaySoundEffect::decodes_to(client_version, !to_client, w, p)) by {
        reveal(PacketRegistration::spec_decodes_to);
    }
    p.lemma_roundtrip(client_version, to_client);
}

#[verifier::rlimit(40)]
proof fn lemma_roundtrip_set_time(p: SetTime, client_version: ClientVersion, to_client: bool)
    requires
        p.can_encode(client_version, to_client),
        p.roundtrips(client_version, to_client),
    ensures
        PacketRegistration::SetTime.spec_decode_error(client_version, !to_client, p.wire(client_version, to_client)) is None,
        PacketRegistration::SetTime.spec_decodes_to(client_version, !to_client, p.wire(client_version, to_client), AnyPacket::SetTime(p)),
{
    let w = p.wire(client_version, to_client);
    assert(PacketRegistration::SetTime.spec_decode_error(client_version, !to_client, w) == SetTime::decode_error(client_version, !to_client, w)) by {
        reveal(PacketRegistration::spec_decode_error);
    }
    assert(PacketRegistration::SetTime.spec_decodes_to(client_version, !to_client, w, AnyPacket::SetTime(p)) == SetTime::decodes_to(client_version, !to_client, w, p)) by {
        reveal(PacketRegistration::spec_decodes_to);
    }
    p.lemma_roundtrip(client_version, to_client);
}

#[verifier::rlimit(40)]
proof fn lemma_roundtrip_change_season(p: ChangeSeason, client_version: ClientVersion, to_client: bool)
    requires
        p.can_encode(client_version, to_client),
        p.roundtrips(client_version, to_client),
    ensures
        PacketRegistration::ChangeSeason.spec_decode_error(client_version, !to_client, p.wire(client_version, to_client)) is None,
        PacketRegistration::ChangeSeason.spec_decodes_to(client_version, !to_client, p.wire(client_version, to_client), AnyPacket::ChangeSeason(p)),
{
    let w = p.wire(client_version, to_client);
    assert(PacketRegistration::ChangeSeason.spec_decode_error(client_version, !to_client, w) == ChangeSeason::decode_error(client_version, !to_client, w)) by {
        reveal(PacketRegistration::spec_decode_error);
    }
    assert(PacketRegistration::ChangeSeason.spec_decodes_to(client_version, !to_client, w, AnyPacket::ChangeSeason(p)) == ChangeSeason::decodes_to(client_version, !to_client, w, p)) by {
        reveal(PacketRegistration::spec_decodes_to);
    }
    p.lemma_roundtrip(client_version, to_client);
}

#[verifier::rlimit(40)]
proof fn lemma_roundtrip_view_range(p: ViewRange, client_version: ClientVersion, to_client: bool)
    requires
        p.can_encode(client_version, to_client),
        p.roundtrips(client_version, to_client),
    ensures
        PacketRegistration::ViewRange.spec_decode_error(client_version, !to_client, p.wire(client_version, to_client)) is None,
        PacketRegistration::ViewRange.spec_decodes_to(client_version, !to_client, p.wire(client_version, to_client), AnyPacket::ViewRange(p)),
{
    let w = p.wire(client_version, to_client);
    assert(PacketRegistration::ViewRange.spec_decode_error(client_version, !to_client, w) == ViewRange::decode_error(client_version, !to_client, w)) by {
        reveal(PacketRegistration::spec_decode_error);
    }
    assert(PacketRegistration::ViewRange.spec_decodes_to(client_version, !to_client, w, AnyPacket::ViewRange(p)) == ViewRange::decodes_to(client_version, !to_client, w, p)) by {
        reveal(PacketRegistration::spec_decodes_to);
    }
    p.lemma_roundtrip(client_version, to_client);
}

#[verifier::rlimit(40)]
proof fn lemma_roundtrip_entity_request(p: EntityRequest, client_version: ClientVersion, to_client: bool)
    requires
        p.can_encode(client_version, to_client),
        p.roundtrips(client_version, to_client),
    ensures
        PacketRegistration::EntityRequest.spec_decode_error(client_version, !to_client, p.wire(client_version, to_client)) is None,
        PacketRegistration::EntityRequest.spec_decodes_to(client_version, !to_client, p.wire(client_version, to_client), AnyPacket::EntityRequest(p)),
{
    let w = p.wire(client_version, to_client);
    assert(PacketRegistration::EntityRequest.spec_decode_error(client_version, !to_client, w) == EntityRequest::decode_error(client_version, !to_client, w)) by {
        reveal(PacketRegistration::spec_decode_error);
    }
    assert(PacketRegistration::EntityRequest.spec_decodes_to(client_version, !to_client, w, AnyPacket::EntityRequest(p)) == EntityRequest::decodes_to(client_version, !to_client, w, p)) by {
        reveal(PacketRegistration::spec_decodes_to);
    }
    p.lemma_roundtrip(client_version, to_client);
}

#[verifier::rlimit(40)]
proof fn lemma_roundtrip_upsert_entity_legacy(p: UpsertEntityLegacy, client_version: ClientVersion, to_client: bool)
    requires
        p.can_encode(client_version, to_client),
        p.roundtrips(client_version, to_client),
    ensures
        PacketRegistration::UpsertEntityLegacy.spec_decode_error(client_version, !to_client, p.wire(client_version, to_client)) is None,
        PacketRegistration::UpsertEntityLegacy.spec_decodes_to(client_version, !to_client, p.wire(client_version, to_client), AnyPacket::UpsertEntityLegacy(p)),
{
    let w = p.wire(client_version, to_client);
    assert(PacketRegistration::UpsertEntityLegacy.spec_decode_error(client_version, !to_client, w) == UpsertEntityLegacy::decode_error(client_version, !to_client, w)) by {
        reveal(PacketRegistration::spec_decode_error);
    }
    assert(PacketRegistration::UpsertEntityLegacy.spec_decodes_to(client_version, !to_client, w, AnyPacket::UpsertEntityLegacy(p)) == UpsertEntityLegacy::decodes_to(client_version, !to_client, w, p)) by {
        reveal(PacketRegistration::spec_decodes_to);
    }
    p.lemma_roundtrip(client_version, to_client);
}

#[verifier::rlimit(40)]
proof fn lemma_roundtrip_upsert_entity_world(p: UpsertEntityWorld, client_version: ClientVersion, to_client: bool)
    requires
        p.can_encode(client_version, to_client),
        p.roundtrips(client_version, to_client),
    ensures
        PacketRegistration::UpsertEntityWorld.spec_decode_error(client_version, !to_client, p.wire(client_version, to_client)) is None,
        PacketRegistration::UpsertEntityWorld.spec_decodes_to(client_version, !to_client, p.wire(client_version, to_client), AnyPacket::UpsertEntityWorld(p)),
{
    let w = p.wire(client_version, to_client);
    assert(PacketRegistration::UpsertEntityWorld.spec_decode_error(client_version, !to_client, w) == UpsertEntityWorld::decode_error(client_version, !to_client, w)) by {
        reveal(PacketRegistration::spec_decode_error);
    }
    assert(PacketRegistration::UpsertEntityWorld.spec_decodes_to(client_version, !to_client, w, AnyPacket::UpsertEntityWorld(p)) == UpsertEntityWorld::decodes_to(client_version, !to_client, w, p)) by {
        reveal(PacketRegistration::spec_decodes_to);
    }
    p.lemma_roundtrip(client_version, to_client);
}

#[verifier::rlimit(40)]
proof fn lemma_roundtrip_delete_entity(p: DeleteEntity, client_version: ClientVersion, to_client: bool)
    requires
        p.can_encode(client_version, to_client),
        p.roundtrips(client_version, to_client),
    ensures
        PacketRegistration::DeleteEntity.spec_decode_error(client_version, !to_client, p.wire(client_version, to_client)) is None,
        PacketRegistration::DeleteEntity.spec_decodes_to(client_version, !to_client, p.wire(client_version, to_client), AnyPacket::DeleteEntity(p)),
{
    let w = p.wire(client_version, to_client);
    assert(PacketRegistration::DeleteEntity.spec_decode_error(client_version, !to_client, w) == DeleteEntity::decode_error(client_version, !to_client, w)) by {
        reveal(PacketRegistration::spec_decode_error);
    }
    assert(PacketRegistration::DeleteEntity.spec_decodes_to(client_version, !to_client, w, AnyPacket::DeleteEntity(p)) == DeleteEntity::decodes_to(client_version, !to_client, w, p)) by {
        reveal(PacketRegistration::spec_decodes_to);
    }
    p.lemma_roundtrip(client_version, to_client);
}

#[verifier::rlimit(40)]
proof fn lemma_roundtrip_upsert_local_player(p: UpsertLocalPlayer, client_version: ClientVersion, to_client: bool)
    requires
        p.can_encode(client_version, to_client),
        p.roundtrips(client_version, to_client),
    ensures
        PacketRegistration::UpsertLocalPlayer.spec_decode_error(client_version, !to_client, p.wire(client_version, to_client)) is None,
        PacketRegistration::UpsertLocalPlayer.spec_decodes_to(client_version, !to_client, p.wire(client_version, to_client), AnyPacket::UpsertLocalPlayer(p)),
{
    let w = p.wire(client_version, to_client);
    assert(PacketRegistration::UpsertLocalPlayer.spec_decode_error(client_version, !to_client, w) == UpsertLocalPlayer::decode_error(client_version, !to_client, w)) by {
        reveal(PacketRegistration::spec_decode_error);
    }
    assert(PacketRegistration::UpsertLocalPlayer.spec_decodes_to(client_version, !to_client, w, AnyPacket::UpsertLocalPlayer(p)) == UpsertLocalPlayer::decodes_to(client_version, !to_client, w, p)) by {
        reveal(PacketRegistration::spec_decodes_to);
    }
    p.lemma_roundtrip(client_version, to_client);
}

#[verifier::rlimit(40)]
proof fn lemma_roundtrip_upsert_entity_character(p: UpsertEntityCharacter, client_version: ClientVersion, to_client: bool)
    requires
        p.can_encode(client_version, to_client),
        p.roundtrips(client_version, to_client),
    ensures
        PacketRegistration::UpsertEntityCharacter.spec_decode_error(client_version, !to_client, p.wire(client_version, to_client)) is None,
        PacketRegistration::UpsertEntityCharacter.spec_decodes_to(client_version, !to_client, p.wire(client_version, to_client), AnyPacket::UpsertEntityCharacter(p)),
{
    let w = p.wire(client_version, to_client);
    assert(PacketRegistration::UpsertEntityCharacter.spec_decode_error(client_version, !to_client, w) == UpsertEntityCharacter::decode_error(client_version, !to_client, w)) by {
        reveal(PacketRegistration::spec_decode_error);
    }
    assert(PacketRegistration::UpsertEntityCharacter.spec_decodes_to(client_version, !to_client, w, AnyPacket::UpsertEntityCharacter(p)) == UpsertEntityCharacter::decodes_to(client_version, !to_client, w, p)) by {
        reveal(PacketRegistration::spec_decodes_to);
    }
    p.lemma_roundtrip(client_version, to_client);
}

#[verifier::rlimit(40)]
proof fn lemma_roundtrip_upsert_entity_equipped(p: UpsertEntityEquipped, client_version: ClientVersion, to_client: bool)
    requires
        p.can_encode(client_version, to_client),
        p.roundtrips(client_version, to_client),
    ensures
        PacketRegistration::UpsertEntityEquipped.spec_decode_error(client_version, !to_client, p.wire(client_version, to_client)) is None,
        PacketRegistration::UpsertEntityEquipped.spec_decodes_to(client_version, !to_client, p.wire(client_version, to_client), AnyPacket::UpsertEntityEquipped(p)),
{
    let w = p.wire(client_version, to_client);
    assert(PacketRegistration::UpsertEntityEquipped.spec_decode_error(client_version, !to_client, w) == UpsertEntityEquipped::decode_error(client_version, !to_client, w)) by {
        reveal(PacketRegistration::spec_decode_error);
    }
    assert(PacketRegistration::UpsertEntityEquipped.spec_decodes_to(client_version, !to_client, w, AnyPacket::UpsertEntityEquipped(p)) == UpsertEntityEquipped::decodes_to(client_version, !to_client, w, p)) by {
        reveal(PacketRegistration::spec_decodes_to);
    }
    p.lemma_roundtrip(client_version, to_client);
}

#[verifier::rlimit(40)]
proof fn lemma_roundtrip_upsert_entity_contained(p: UpsertEntityContained, client_version: ClientVersion, to_client: bool)
    requires
        p.can_encode(client_version, to_client),
        p.roundtrips(client_version, to_client),
    ensures
        PacketRegistration::UpsertEntityContained.spec_decode_error(client_version, !to_client, p.wire(client_version, to_client)) is None,
        PacketRegistration::UpsertEntityContained.spec_decodes_to(client_version, !to_client, p.wire(client_version, to_client), AnyPacket::UpsertEntityContained(p)),
{
    let w = p.wire(client_version, to_client);
    assert(PacketRegistration::UpsertEntityContained.spec_decode_error(client_version, !to_client, w) == UpsertEntityContained::decode_error(client_version, !to_client, w)) by {
        reveal(PacketRegistration::spec_decode_error);
    }
    assert(PacketRegistration::UpsertEntityContained.spec_decodes_to(client_version, !to_client, w, AnyPacket::UpsertEntityContained(p)) == UpsertEntityContained::decodes_to(client_version, !to_client, w, p)) by {
        reveal(PacketRegistration::spec_decodes_to);
    }
    p.lemma_roundtrip(client_version, to_client);
}

#[verifier::rlimit(40)]
proof fn lemma_roundtrip_upsert_container_contents(p: UpsertContainerContents, client_version: ClientVersion, to_client: bool)
    requires
        p.can_encode(client_version, to_client),
        p.roundtrips(client_version, to_client),
    ensures
        PacketRegistration::UpsertContainerContents.spec_decode_error(client_version, !to_client, p.wire(client_version, to_client)) is None,
        PacketRegistration::UpsertContainerContents.spec_decodes_to(client_version, !to_client, p.wire(client_version, to_client), AnyPacket::UpsertContainerContents(p)),
{
    let w = p.wire(client_version, to_client);
    assert(PacketRegistration::UpsertContainerContents.spec_decode_error(client_version, !to_client, w) == UpsertContainerContents::decode_error(client_version, !to_client, w)) by {
        reveal(PacketRegistration::spec_decode_error);
    }
    assert(PacketRegistration::UpsertContainerContents.spec_decodes_to(client_version, !to_client, w, AnyPacket::UpsertContainerContents(p)) == UpsertContainerContents::decodes_to(client_version, !to_client, w, p)) by {
        reveal(PacketRegistration::spec_decodes_to);
    }
    p.lemma_roundtrip(client_version, to_client);
}

#[verifier::rlimit(40)]
proof fn lemma_roundtrip_entity_tooltip_version(p: EntityTooltipVersion, client_version: ClientVersion, to_client: bool)
    requires
        p.can_encode(client_version, to_client),
        p.roundtrips(client_version, to_client),
    ensures
        PacketRegistration::EntityTooltipVersion.spec_decode_error(client_version, !to_client, p.wire(client_version, to_client)) is None,
        PacketRegistration::EntityTooltipVersion.spec_decodes_to(client_version, !to_client, p.wire(client_version, to_client), AnyPacket::EntityTooltipVersion(p)),
{
    let w = p.wire(client_version, to_client);
    assert(PacketRegistration::EntityTooltipVersion.spec_decode_error(client_version, !to_client, w) == EntityTooltipVersion::decode_error(client_version, !to_client, w)) by {
        reveal(PacketRegistration::spec_decode_error);
    }
    assert(PacketRegistration::EntityTooltipVersion.spec_decodes_to(client_version, !to_client, w, AnyPacket::EntityTooltipVersion(p)) == EntityTooltipVersion::decodes_to(client_version, !to_client, w, p)) by {
        reveal(PacketRegistration::spec_decodes_to);
    }
    p.lemma_roundtrip(client_version, to_client);
}

#[verifier::rlimit(40)]
proof fn lemma_roundtrip_entity_tooltip(p: EntityTooltip, client_version: ClientVersion, to_client: bool)
    requires
        p.can_encode(client_version, to_client),
        p.roundtrips(client_version, to_client),
    ensures
        PacketRegistration::EntityTooltip.spec_decode_error(client_version, !to_client, p.wire(client_version, to_client)) is None,
        PacketRegistration::EntityTooltip.spec_decodes_to(client_version, !to_client, p.wire(client_version, to_client), AnyPacket::EntityTooltip(p)),
{
    let w = p.wire(client_version, to_client);
    assert(PacketRegistration::EntityTooltip.spec_decode_error(client_version, !to_client, w) == EntityTooltip::decode_error(client_version, !to_client, w)) by {
        reveal(PacketRegistration::spec_decode_error);
    }
    assert(PacketRegistration::EntityTooltip.spec_decodes_to(client_version, !to_client, w, AnyPacket::EntityTooltip(p)) == EntityTooltip::decodes_to(client_version, !to_client, w, p)) by {
        reveal(PacketRegistration::spec_decodes_to);
    }
    p.lemma_roundtrip(client_version, to_client);
}

#[verifier::rlimit(40)]
proof fn lemma_roundtrip_upsert_entity_stats(p: UpsertEntityStats, client_version: ClientVersion, to_client: bool)
    requires
        p.can_encode(client_version, to_client),
        p.roundtrips(client_version, to_client),
    ensures
        PacketRegistration::UpsertEntityStats.spec_decode_error(client_version, !to_client, p.wire(client_version, to_client)) is None,
        PacketRegistration::UpsertEntityStats.spec_decodes_to(client_version, !to_client, p.wire(client_version, to_client), AnyPacket::UpsertEntityStats(p)),
{
    let w = p.wire(client_version, to_client);
    assert(PacketRegistration::UpsertEntityStats.spec_decode_error(client_version, !to_client, w) == UpsertEntityStats::decode_error(client_version, !to_client, w)) by {
        reveal(PacketRegistration::spec_decode_error);
    }
    assert(PacketRegistration::UpsertEntityStats.spec_decodes_to(client_version, !to_client, w, AnyPacket::UpsertEntityStats(p)) == UpsertEntityStats::decodes_to(client_version, !to_client, w, p)) by {
        reveal(PacketRegistration::spec_decodes_to);
    }
    p.lemma_roundtrip(client_version, to_client);
}

#[verifier::rlimit(40)]
proof fn lemma_roundtrip_attack_request(p: AttackRequest, client_version: ClientVersion, to_client: bool)
    requires
        p.can_encode(client_version, to_client),
        p.roundtrips(client_version, to_client),
    ensures
        PacketRegistration::AttackRequest.spec_decode_error(client_version, !to_client, p.wire(client_version, to_client)) is None,
        PacketRegistration::AttackRequest.spec_decodes_to(client_version, !to_client, p.wire(client_version, to_client), AnyPacket::AttackRequest(p)),
{
    let w = p.wire(client_version, to_client);
    assert(PacketRegistration::AttackRequest.spec_decode_error(client_version, !to_client, w) == AttackRequest::decode_error(client_version, !to_client, w)) by {
        reveal(PacketRegistration::spec_decode_error);
    }
    assert(PacketRegistration::AttackRequest.spec_decodes_to(client_version, !to_client, w, AnyPacket::AttackRequest(p)) == AttackRequest::decodes_to(client_version, !to_client, w, p)) by {
        reveal(PacketRegistration::spec_decodes_to);
    }
    p.lemma_roundtrip(client_version, to_client);
}

#[verifier::rlimit(40)]
proof fn lemma_roundtrip_set_attack_target(p: SetAttackTarget, client_version: ClientVersion, to_client: bool)
    requires
        p.can_encode(client_version, to_client),
        p.roundtrips(client_version, to_client),
    ensures
        PacketRegistration::SetAttackTarget.spec_decode_error(client_version, !to_client, p.wire(client_version, to_client)) is None,
        PacketRegistration::SetAttackTarget.spec_decodes_to(client_version, !to_client, p.wire(client_version, to_client), AnyPacket::SetAttackTarget(p)),
{
    let w = p.wire(client_version, to_client);
    assert(PacketRegistration::SetAttackTarget.spec_decode_error(client_version, !to_client, w) == SetAttackTarget::decode_error(client_version, !to_client, w)) by {
        reveal(PacketRegistration::spec_decode_error);
    }
    assert(PacketRegistration::SetAttackTarget.spec_decodes_to(client_version, !to_client, w, AnyPacket::SetAttackTarget(p)) == SetAttackTarget::decodes_to(client_version, !to_client, w, p)) by {
        reveal(PacketRegistration::spec_decodes_to);
    }
    p.lemma_roundtrip(client_version, to_client);
}

#[verifier::rlimit(40)]
proof fn lemma_roundtrip_swing(p: Swing, client_version: ClientVersion, to_client: bool)
    requires
        p.can_encode(client_version, to_client),
        p.roundtrips(client_version, to_client),
    ensures
        PacketRegistration::Swing.spec_decode_error(client_version, !to_client, p.wire(client_version, to_client)) is None,
        PacketRegistration::Swing.spec_decodes_to(client_version, !to_client, p.wire(client_version, to_client), AnyPacket::Swing(p)),
{
    let w = p.wire(client_version, to_client);
    assert(PacketRegistration::Swing.spec_decode_error(client_version, !to_client, w) == Swing::decode_error(client_version, !to_client, w)) by {
        reveal(PacketRegistration::spec_decode_error);
    }
    assert(PacketRegistration::Swing.spec_decodes_to(client_version, !to_client, w, AnyPacket::Swing(p)) == Swing::decodes_to(client_version, !to_client, w, p)) by {
        reveal(PacketRegistration::spec_decodes_to);
    }
    p.lemma_roundtrip(client_version, to_client);
}

#[verifier::rlimit(40)]
proof fn lemma_roundtrip_character_animation(p: CharacterAnimation, client_version: ClientVersion, to_client: bool)
    requires
        p.can_encode(client_version, to_client),
        p.roundtrips(client_version, to_client),
    ensures
        PacketRegistration::CharacterAnimation.spec_decode_error(client_version, !to_client, p.wire(client_version, to_client)) is None,
        PacketRegistration::CharacterAnimation.spec_decodes_to(client_version, !to_client, p.wire(client_version, to_client), AnyPacket::CharacterAnimation(p)),
{
    let w = p.wire(client_version, to_client);
    assert(PacketRegistration::CharacterAnimation.spec_decode_error(client_version, !to_client, w) == CharacterAnimation::decode_error(client_version, !to_client, w)) by {
        reveal(PacketRegistration::spec_decode_error);
    }
    assert(PacketRegistration::CharacterAnimation.spec_decodes_to(client_version, !to_client, w, AnyPacket::CharacterAnimation(p)) == CharacterAnimation::decodes_to(client_version, !to_client, w, p)) by {
        reveal(PacketRegistration::spec_decodes_to);
    }
    p.lemma_roundtrip(client_version, to_client);
}

#[verifier::rlimit(40)]
proof fn lemma_roundtrip_character_predefined_animation(p: CharacterPredefinedAnimation, client_version: ClientVersion, to_client: bool)
    requires
        p.can_encode(client_version, to_client),
        p.roundtrips(client_version, to_client),
    ensures
        PacketRegistration::CharacterPredefinedAnimation.spec_decode_error(client_version, !to_client, p.wire(client_version, to_client)) is None,
        PacketRegistration::CharacterPredefinedAnimation.spec_decodes_to(client_version, !to_client, p.wire(client_version, to_client), AnyPacket::CharacterPredefinedAnimation(p)),
{
    let w = p.wire(client_version, to_client);
    assert(PacketRegistration::CharacterPredefinedAnimation.spec_decode_error(client_version, !to_client, w) == CharacterPredefinedAnimation::decode_error(client_version, !to_client, w)) by {
        reveal(PacketRegistration::spec_decode_error);
    }
    assert(PacketRegistration::CharacterPredefinedAnimation.spec_decodes_to(client_version, !to_client, w, AnyPacket::CharacterPredefinedAnimation(p)) == CharacterPredefinedAnimation::decodes_to(client_version, !to_client, w, p)) by {
        reveal(PacketRegistration::spec_decodes_to);
    }
    p.lemma_roundtrip(client_version, to_client);
}

/// A packet that can be sent: a packet of a known type, or of any type.
pub trait OutgoingPacket {
    spec fn spec_outgoing_kind(&self) -> u8;

    spec fn spec_outgoing_fixed_length(&self, client_version: ClientVersion) -> Option<usize>;

    spec fn spec_outgoing_wire(&self, client_version: ClientVersion, to_client: bool) -> Seq<u8>;

    spec fn spec_outgoing_can_encode(&self, client_version: ClientVersion, to_client: bool) -> bool;

    spec fn spec_outgoing_wire_on_error(&self, client_version: ClientVersion, to_client: bool) -> Seq<u8>;

    fn packet_kind(&self) -> (r: u8)
        ensures
            r == self.spec_outgoing_kind(),
    ;

    fn fixed_length(&self, client_version: ClientVersion) -> (r: Option<usize>)
        ensures
            r == self.spec_outgoing_fixed_length(client_version),
    ;

    fn encode(&self, client_version: ClientVersion, to_client: bool, writer: &mut Vec<u8>) -> (r: Result<(), ProtocolError>)
        ensures
            r is Ok <==> self.spec_outgoing_can_encode(client_version, to_client),
            r is Ok ==> final(writer)@ == old(writer)@ + self.spec_outgoing_wire(client_version, to_client),
            r is Err ==> final(writer)@ == old(writer)@ + self.spec_outgoing_wire_on_error(client_version, to_client),
    ;
}

impl<T: Packet> OutgoingPacket for T {
    open spec fn spec_outgoing_kind(&self) -> u8 {
        T::spec_packet_kind()
    }

    open spec fn spec_outgoing_fixed_length(&self, client_version: ClientVersion) -> Option<usize> {
        T::spec_fixed_length(client_version)
    }

    open spec fn spec_outgoing_wire(&self, client_version: ClientVersion, to_client: bool) -> Seq<u8> {
        self.wire(client_version, to_client)
    }

    open spec fn spec_outgoing_can_encode(&self, client_version: ClientVersion, to_client: bool) -> bool {
        self.can_encode(client_version, to_client)
    }

    open spec fn spec_outgoing_wire_on_error(&self, client_version: ClientVersion, to_client: bool) -> Seq<u8> {
        self.wire_on_error(client_version, to_client)
    }

    fn packet_kind(&self) -> (r: u8) {
        T::packet_kind()
    }

    fn fixed_length(&self, client_version: ClientVersion) -> (r: Option<usize>) {
        T::fixed_length(client_version)
    }

    fn encode(&self, client_version: ClientVersion, to_client: bool, writer: &mut Vec<u8>) -> (r: Result<(), ProtocolError>) {
        <T as Packet>::encode(self, client_version, to_client, writer)
    }
}

impl OutgoingPacket for AnyPacket {
    open spec fn spec_outgoing_kind(&self) -> u8 {
        self.spec_packet_kind()
    }

    open spec fn spec_outgoing_fixed_length(&self, client_version: ClientVersion) -> Option<usize> {
        self.spec_fixed_length(client_version)
    }

    open spec fn spec_outgoing_wire(&self, client_version: ClientVersion, to_client: bool) -> Seq<u8> {
        self.spec_wire(client_version, to_client)
    }

    open spec fn spec_outgoing_can_encode(&self, client_version: ClientVersion, to_client: bool) -> bool {
        self.spec_can_encode(client_version, to_client)
    }

    open spec fn spec_outgoing_wire_on_error(&self, client_version: ClientVersion, to_client: bool) -> Seq<u8> {
        self.spec_wire_on_error(client_version, to_client)
    }

    fn packet_kind(&self) -> (r: u8) {
        match self {
            AnyPacket::Seed(_) => <Seed as Packet>::packet_kind(),
            AnyPacket::AccountLogin(_) => <AccountLogin as Packet>::packet_kind(),
            AnyPacket::ServerList(_) => <ServerList as Packet>::packet_kind(),
            AnyPacket::SelectGameServer(_) => <SelectGameServer as Packet>::packet_kind(),
            AnyPacket::SwitchServer(_) => <SwitchServer as Packet>::packet_kind(),
            AnyPacket::GameServerLogin(_) => <GameServerLogin as Packet>::packet_kind(),
            AnyPacket::SupportedFeatures(_) => <SupportedFeatures as Packet>::packet_kind(),
            AnyPacket::CharacterList(_) => <CharacterList as Packet>::packet_kind(),
            AnyPacket::CreateCharacterClassic(_) => <CreateCharacterClassic as Packet>::packet_kind(),
            AnyPacket::CreateCharacterEnhanced(_) => <CreateCharacterEnhanced as Packet>::packet_kind(),
            AnyPacket::DeleteCharacter(_) => <DeleteCharacter as Packet>::packet_kind(),
            AnyPacket::SelectCharacter(_) => <SelectCharacter as Packet>::packet_kind(),
            AnyPacket::ClientVersionRequest(_) => <ClientVersionRequest as Packet>::packet_kind(),
            AnyPacket::BeginEnterWorld(_) => <BeginEnterWorld as Packet>::packet_kind(),
            AnyPacket::EndEnterWorld(_) => <EndEnterWorld as Packet>::packet_kind(),
            AnyPacket::ShowPublicHouses(_) => <ShowPublicHouses as Packet>::packet_kind(),
            AnyPacket::Ping(_) => <Ping as Packet>::packet_kind(),
            AnyPacket::ExtendedCommand(_) => <ExtendedCommand as Packet>::packet_kind(),
            AnyPacket::ExtendedCommandAos(_) => <ExtendedCommandAos as Packet>::packet_kind(),
            AnyPacket::Move(_) => <Move as Packet>::packet_kind(),
            AnyPacket::MoveConfirm(_) => <MoveConfirm as Packet>::packet_kind(),
            AnyPacket::MoveReject(_) => <MoveReject as Packet>::packet_kind(),
            AnyPacket::SingleClick(_) => <SingleClick as Packet>::packet_kind(),
            AnyPacket::DoubleClick(_) => <DoubleClick as Packet>::packet_kind(),
            AnyPacket::PickUpEntity(_) => <PickUpEntity as Packet>::packet_kind(),
            AnyPacket::DropEntity(_) => <DropEntity as Packet>::packet_kind(),
            AnyPacket::MoveEntityReject(_) => <MoveEntityReject as Packet>::packet_kind(),
            AnyPacket::PickTarget(_) => <PickTarget as Packet>::packet_kind(),
            AnyPacket::OpenChatWindow(_) => <OpenChatWindow as Packet>::packet_kind(),
            AnyPacket::OpenPaperDoll(_) => <OpenPaperDoll as Packet>::packet_kind(),
            AnyPacket::OpenContainer(_) => <OpenContainer as Packet>::packet_kind(),
            AnyPacket::OpenGump(_) => <OpenGump as Packet>::packet_kind(),
            AnyPacket::OpenGumpCompressed(_) => <OpenGumpCompressed as Packet>::packet_kind(),
            AnyPacket::GumpResult(_) => <GumpResult as Packet>::packet_kind(),
            AnyPacket::AsciiTextMessage(_) => <AsciiTextMessage as Packet>::packet_kind(),
            AnyPacket::UnicodeTextMessage(_) => <UnicodeTextMessage as Packet>::packet_kind(),
            AnyPacket::LocalisedTextMessage(_) => <LocalisedTextMessage as Packet>::packet_kind(),
            AnyPacket::AsciiTextMessageRequest(_) => <AsciiTextMessageRequest as Packet>::packet_kind(),
            AnyPacket::UnicodeTextMessageRequest(_) => <UnicodeTextMessageRequest as Packet>::packet_kind(),
            AnyPacket::PlayMusic(_) => <PlayMusic as Packet>::packet_kind(),
            AnyPacket::PlaySoundEffect(_) => <PlaySoundEffect as Packet>::packet_kind(),
            AnyPacket::SetTime(_) => <SetTime as Packet>::packet_kind(),
            AnyPacket::ChangeSeason(_) => <ChangeSeason as Packet>::packet_kind(),
            AnyPacket::ViewRange(_) => <ViewRange as Packet>::packet_kind(),
            AnyPacket::EntityRequest(_) => <EntityRequest as Packet>::packet_kind(),
            AnyPacket::UpsertEntityLegacy(_) => <UpsertEntityLegacy as Packet>::packet_kind(),
            AnyPacket::UpsertEntityWorld(_) => <UpsertEntityWorld as Packet>::packet_kind(),
            AnyPacket::DeleteEntity(_) => <DeleteEntity as Packet>::packet_kind(),
            AnyPacket::UpsertLocalPlayer(_) => <UpsertLocalPlayer as Packet>::packet_kind(),
            AnyPacket::UpsertEntityCharacter(_) => <UpsertEntityCharacter as Packet>::packet_kind(),
            AnyPacket::UpsertEntityEquipped(_) => <UpsertEntityEquipped as Packet>::packet_kind(),
            AnyPacket::UpsertEntityContained(_) => <UpsertEntityContained as Packet>::packet_kind(),
            AnyPacket::UpsertContainerContents(_) => <UpsertContainerContents as Packet>::packet_kind(),
            AnyPacket::EntityTooltipVersion(_) => <EntityTooltipVersion as Packet>::packet_kind(),
            AnyPacket::EntityTooltip(_) => <EntityTooltip as Packet>::packet_kind(),
            AnyPacket::UpsertEntityStats(_) => <UpsertEntityStats as Packet>::packet_kind(),
            AnyPacket::AttackRequest(_) => <AttackRequest as Packet>::packet_kind(),
            AnyPacket::SetAttackTarget(_) => <SetAttackTarget as Packet>::packet_kind(),
            AnyPacket::Swing(_) => <Swing as Packet>::packet_kind(),
            AnyPacket::CharacterAnimation(_) => <CharacterAnimation as Packet>::packet_kind(),
            AnyPacket::CharacterPredefinedAnimation(_) => <CharacterPredefinedAnimation as Packet>::packet_kind(),
        }
    }

    fn fixed_length(&self, client_version: ClientVersion) -> (r: Option<usize>) {
        match self {
            AnyPacket::Seed(_) => <Seed as Packet>::fixed_length(client_version),
            AnyPacket::AccountLogin(_) => <AccountLogin as Packet>::fixed_length(client_version),
            AnyPacket::ServerList(_) => <ServerList as Packet>::fixed_length(client_version),
            AnyPacket::SelectGameServer(_) => <SelectGameServer as Packet>::fixed_length(client_version),
            AnyPacket::SwitchServer(_) => <SwitchServer as Packet>::fixed_length(client_version),
            AnyPacket::GameServerLogin(_) => <GameServerLogin as Packet>::fixed_length(client_version),
            AnyPacket::SupportedFeatures(_) => <SupportedFeatures as Packet>::fixed_length(client_version),
            AnyPacket::CharacterList(_) => <CharacterList as Packet>::fixed_length(client_version),
            AnyPacket::CreateCharacterClassic(_) => <CreateCharacterClassic as Packet>::fixed_length(client_version),
            AnyPacket::CreateCharacterEnhanced(_) => <CreateCharacterEnhanced as Packet>::fixed_length(client_version),
            AnyPacket::DeleteCharacter(_) => <DeleteCharacter as Packet>::fixed_length(client_version),
            AnyPacket::SelectCharacter(_) => <SelectCharacter as Packet>::fixed_length(client_version),
            AnyPacket::ClientVersionRequest(_) => <ClientVersionRequest as Packet>::fixed_length(client_version),
            AnyPacket::BeginEnterWorld(_) => <BeginEnterWorld as Packet>::fixed_length(client_version),
            AnyPacket::EndEnterWorld(_) => <EndEnterWorld as Packet>::fixed_length(client_version),
            AnyPacket::ShowPublicHouses(_) => <ShowPublicHouses as Packet>::fixed_length(client_version),
            AnyPacket::Ping(_) => <Ping as Packet>::fixed_length(client_version),
            AnyPacket::ExtendedCommand(_) => <ExtendedCommand as Packet>::fixed_length(client_version),
            AnyPacket::ExtendedCommandAos(_) => <ExtendedCommandAos as Packet>::fixed_length(client_version),
            AnyPacket::Move(_) => <Move as Packet>::fixed_length(client_version),
            AnyPacket::MoveConfirm(_) => <MoveConfirm as Packet>::fixed_length(client_version),
            AnyPacket::MoveReject(_) => <MoveReject as Packet>::fixed_length(client_version),
            AnyPacket::SingleClick(_) => <SingleClick as Packet>::fixed_length(client_version),
            AnyPacket::DoubleClick(_) => <DoubleClick as Packet>::fixed_length(client_version),
            AnyPacket::PickUpEntity(_) => <PickUpEntity as Packet>::fixed_length(client_version),
            AnyPacket::DropEntity(_) => <DropEntity as Packet>::fixed_length(client_version),
            AnyPacket::MoveEntityReject(_) => <MoveEntityReject as Packet>::fixed_length(client_version),
            AnyPacket::PickTarget(_) => <PickTarget as Packet>::fixed_length(client_version),
            AnyPacket::OpenChatWindow(_) => <OpenChatWindow as Packet>::fixed_length(client_version),
            AnyPacket::OpenPaperDoll(_) => <OpenPaperDoll as Packet>::fixed_length(client_version),
            AnyPacket::OpenContainer(_) => <OpenContainer as Packet>::fixed_length(client_version),
            AnyPacket::OpenGump(_) => <OpenGump as Packet>::fixed_length(client_version),
            AnyPacket::OpenGumpCompressed(_) => <OpenGumpCompressed as Packet>::fixed_length(client_version),
            AnyPacket::GumpResult(_) => <GumpResult as Packet>::fixed_length(client_version),
            AnyPacket::AsciiTextMessage(_) => <AsciiTextMessage as Packet>::fixed_length(client_version),
            AnyPacket::UnicodeTextMessage(_) => <UnicodeTextMessage as Packet>::fixed_length(client_version),
            AnyPacket::LocalisedTextMessage(_) => <LocalisedTextMessage as Packet>::fixed_length(client_version),
            AnyPacket::AsciiTextMessageRequest(_) => <AsciiTextMessageRequest as Packet>::fixed_length(client_version),
            AnyPacket::UnicodeTextMessageRequest(_) => <UnicodeTextMessageRequest as Packet>::fixed_length(client_version),
            AnyPacket::PlayMusic(_) => <PlayMusic as Packet>::fixed_length(client_version),
            AnyPacket::PlaySoundEffect(_) => <PlaySoundEffect as Packet>::fixed_length(client_version),
            AnyPacket::SetTime(_) => <SetTime as Packet>::fixed_length(client_version),
            AnyPacket::ChangeSeason(_) => <ChangeSeason as Packet>::fixed_length(client_version),
            AnyPacket::ViewRange(_) => <ViewRange as Packet>::fixed_length(client_version),
            AnyPacket::EntityRequest(_) => <EntityRequest as Packet>::fixed_length(client_version),
            AnyPacket::UpsertEntityLegacy(_) => <UpsertEntityLegacy as Packet>::fixed_length(client_version),
            AnyPacket::UpsertEntityWorld(_) => <UpsertEntityWorld as Packet>::fixed_length(client_version),
            AnyPacket::DeleteEntity(_) => <DeleteEntity as Packet>::fixed_length(client_version),
            AnyPacket::UpsertLocalPlayer(_) => <UpsertLocalPlayer as Packet>::fixed_length(client_version),
            AnyPacket::UpsertEntityCharacter(_) => <UpsertEntityCharacter as Packet>::fixed_length(client_version),
            AnyPacket::UpsertEntityEquipped(_) => <UpsertEntityEquipped as Packet>::fixed_length(client_version),
            AnyPacket::UpsertEntityContained(_) => <UpsertEntityContained as Packet>::fixed_length(client_version),
            AnyPacket::UpsertContainerContents(_) => <UpsertContainerContents as Packet>::fixed_length(client_version),
            AnyPacket::EntityTooltipVersion(_) => <EntityTooltipVersion as Packet>::fixed_length(client_version),
            AnyPacket::EntityTooltip(_) => <EntityTooltip as Packet>::fixed_length(client_version),
            AnyPacket::UpsertEntityStats(_) => <UpsertEntityStats as Packet>::fixed_length(client_version),
            AnyPacket::AttackRequest(_) => <AttackRequest as Packet>::fixed_length(client_version),
            AnyPacket::SetAttackTarget(_) => <SetAttackTarget as Packet>::fixed_length(client_version),
            AnyPacket::Swing(_) => <Swing as Packet>::fixed_length(client_version),
            AnyPacket::CharacterAnimation(_) => <CharacterAnimation as Packet>::fixed_length(client_version),
            AnyPacket::CharacterPredefinedAnimation(_) => <CharacterPredefinedAnimation as Packet>::fixed_length(client_version),
        }
    }

    #[verifier::rlimit(40)]
    fn encode(&self, client_version: ClientVersion, to_client: bool, writer: &mut Vec<u8>) -> (r: Result<(), ProtocolError>) {
        match self {
            AnyPacket::Seed(p) => <Seed as Packet>::encode(p, client_version, to_client, writer),
            AnyPacket::AccountLogin(p) => <AccountLogin as Packet>::encode(p, client_version, to_client, writer),
            AnyPacket::ServerList(p) => <ServerList as Packet>::encode(p, client_version, to_client, writer),
            AnyPacket::SelectGameServer(p) => <SelectGameServer as Packet>::encode(p, client_version, to_client, writer),
            AnyPacket::SwitchServer(p) => <SwitchServer as Packet>::encode(p, client_version, to_client, writer),
            AnyPacket::GameServerLogin(p) => <GameServerLogin as Packet>::encode(p, client_version, to_client, writer),
            AnyPacket::SupportedFeatures(p) => <SupportedFeatures as Packet>::encode(p, client_version, to_client, writer),
            AnyPacket::CharacterList(p) => <CharacterList as Packet>::encode(p, client_version, to_client, writer),
            AnyPacket::CreateCharacterClassic(p) => <CreateCharacterClassic as Packet>::encode(p, client_version, to_client, writer),
            AnyPacket::CreateCharacterEnhanced(p) => <CreateCharacterEnhanced as Packet>::encode(p, client_version, to_client, writer),
            AnyPacket::DeleteCharacter(p) => <DeleteCharacter as Packet>::encode(p, client_version, to_client, writer),
            AnyPacket::SelectCharacter(p) => <SelectCharacter as Packet>::encode(p, client_version, to_client, writer),
            AnyPacket::ClientVersionRequest(p) => <ClientVersionRequest as Packet>::encode(p, client_version, to_client, writer),
            AnyPacket::BeginEnterWorld(p) => <BeginEnterWorld as Packet>::encode(p, client_version, to_client, writer),
            AnyPacket::EndEnterWorld(p) => <EndEnterWorld as Packet>::encode(p, client_version, to_client, writer),
            AnyPacket::ShowPublicHouses(p) => <ShowPublicHouses as Packet>::encode(p, client_version, to_client, writer),
            AnyPacket::Ping(p) => <Ping as Packet>::encode(p, client_version, to_client, writer),
            AnyPacket::ExtendedCommand(p) => <ExtendedCommand as Packet>::encode(p, client_version, to_client, writer),
            AnyPacket::ExtendedCommandAos(p) => <ExtendedCommandAos as Packet>::encode(p, client_version, to_client, writer),
            AnyPacket::Move(p) => <Move as Packet>::encode(p, client_version, to_client, writer),
            AnyPacket::MoveConfirm(p) => <MoveConfirm as Packet>::encode(p, client_version, to_client, writer),
            AnyPacket::MoveReject(p) => <MoveReject as Packet>::encode(p, client_version, to_client, writer),
            AnyPacket::SingleClick(p) => <SingleClick as Packet>::encode(p, client_version, to_client, writer),
            AnyPacket::DoubleClick(p) => <DoubleClick as Packet>::encode(p, client_version, to_client, writer),
            AnyPacket::PickUpEntity(p) => <PickUpEntity as Packet>::encode(p, client_version, to_client, writer),
            AnyPacket::DropEntity(p) => <DropEntity as Packet>::encode(p, client_version, to_client, writer),
            AnyPacket::MoveEntityReject(p) => <MoveEntityReject as Packet>::encode(p, client_version, to_client, writer),
            AnyPacket::PickTarget(p) => <PickTarget as Packet>::encode(p, client_version, to_client, writer),
            AnyPacket::OpenChatWindow(p) => <OpenChatWindow as Packet>::encode(p, client_version, to_client, writer),
            AnyPacket::OpenPaperDoll(p) => <OpenPaperDoll as Packet>::encode(p, client_version, to_client, writer),
            AnyPacket::OpenContainer(p) => <OpenContainer as Packet>::encode(p, client_version, to_client, writer),
            AnyPacket::OpenGump(p) => <OpenGump as Packet>::encode(p, client_version, to_client, writer),
            AnyPacket::OpenGumpCompressed(p) => <OpenGumpCompressed as Packet>::encode(p, client_version, to_client, writer),
            AnyPacket::GumpResult(p) => <GumpResult as Packet>::encode(p, client_version, to_client, writer),
            AnyPacket::AsciiTextMessage(p) => <AsciiTextMessage as Packet>::encode(p, client_version, to_client, writer),
            AnyPacket::UnicodeTextMessage(p) => <UnicodeTextMessage as Packet>::encode(p, client_version, to_client, writer),
            AnyPacket::LocalisedTextMessage(p) => <LocalisedTextMessage as Packet>::encode(p, client_version, to_client, writer),
            AnyPacket::AsciiTextMessageRequest(p) => <AsciiTextMessageRequest as Packet>::encode(p, client_version, to_client, writer),
            AnyPacket::UnicodeTextMessageRequest(p) => <UnicodeTextMessageRequest as Packet>::encode(p, client_version, to_client, writer),
            AnyPacket::PlayMusic(p) => <PlayMusic as Packet>::encode(p, client_version, to_client, writer),
            AnyPacket::PlaySoundEffect(p) => <PlaySoundEffect as Packet>::encode(p, client_version, to_client, writer),
            AnyPacket::SetTime(p) => <SetTime as Packet>::encode(p, client_version, to_client, writer),
            AnyPacket::ChangeSeason(p) => <ChangeSeason as Packet>::encode(p, client_version, to_client, writer),
            AnyPacket::ViewRange(p) => <ViewRange as Packet>::encode(p, client_version, to_client, writer),
            AnyPacket::EntityRequest(p) => <EntityRequest as Packet>::encode(p, client_version, to_client, writer),
            AnyPacket::UpsertEntityLegacy(p) => <UpsertEntityLegacy as Packet>::encode(p, client_version, to_client, writer),
            AnyPacket::UpsertEntityWorld(p) => <UpsertEntityWorld as Packet>::encode(p, client_version, to_client, writer),
            AnyPacket::DeleteEntity(p) => <DeleteEntity as Packet>::encode(p, client_version, to_client, writer),
            AnyPacket::UpsertLocalPlayer(p) => <UpsertLocalPlayer as Packet>::encode(p, client_version, to_client, writer),
            AnyPacket::UpsertEntityCharacter(p) => <UpsertEntityCharacter as Packet>::encode(p, client_version, to_client, writer),
            AnyPacket::UpsertEntityEquipped(p) => <UpsertEntityEquipped as Packet>::encode(p, client_version, to_client, writer),
            AnyPacket::UpsertEntityContained(p) => <UpsertEntityContained as Packet>::encode(p, client_version, to_client, writer),
            AnyPacket::UpsertContainerContents(p) => <UpsertContainerContents as Packet>::encode(p, client_version, to_client, writer),
            AnyPacket::EntityTooltipVersion(p) => <EntityTooltipVersion as Packet>::encode(p, client_version, to_client, writer),
            AnyPacket::EntityTooltip(p) => <EntityTooltip as Packet>::encode(p, client_version, to_client, writer),
            AnyPacket::UpsertEntityStats(p) => <UpsertEntityStats as Packet>::encode(p, client_version, to_client, writer),
            AnyPacket::AttackRequest(p) => <AttackRequest as Packet>::encode(p, client_version, to_client, writer),
            AnyPacket::SetAttackTarget(p) => <SetAttackTarget as Packet>::encode(p, client_version, to_client, writer),
            AnyPacket::Swing(p) => <Swing as Packet>::encode(p, client_version, to_client, writer),
            AnyPacket::CharacterAnimation(p) => <CharacterAnimation as Packet>::encode(p, client_version, to_client, writer),
            AnyPacket::CharacterPredefinedAnimation(p) => <CharacterPredefinedAnimation as Packet>::encode(p, client_version, to_client, writer),
        }
    }
}

/// Conversion into a packet of any type.
pub trait IntoAnyPacket: Sized {
    /// Whether `p` is what this converts to.
    spec fn spec_converts_to(&self, p: AnyPacket) -> bool;

    fn into_any(self) -> (r: AnyPacket)
        ensures
            self.spec_converts_to(r),
    ;

    fn into_any_arc(self) -> (r: Arc<AnyPacket>)
        ensures
            self.spec_converts_to(*r),
    {
        Arc::new(self.into_any())
    }

    /// The packet, or the shared packet when it is already shared.
    fn into_any_maybe_arc(self) -> (r: Result<AnyPacket, Arc<AnyPacket>>)
        ensures
            match r {
                Ok(p) => self.spec_converts_to(p),
                Err(a) => self.spec_converts_to(*a),
            },
    {
        Ok(self.into_any())
    }
}

impl IntoAnyPacket for AnyPacket {
    open spec fn spec_converts_to(&self, p: AnyPacket) -> bool {
        p == *self
    }

    fn into_any(self) -> (r: AnyPacket) {
        self
    }
}

impl IntoAnyPacket for Arc<AnyPacket> {
    /// A shared packet converts to a clone of it.
    open spec fn spec_converts_to(&self, p: AnyPacket) -> bool {
        p == **self || cloned::<AnyPacket>(**self, p)
    }

    fn into_any(self) -> (r: AnyPacket) {
        (*self).clone()
    }

    fn into_any_arc(self) -> (r: Arc<AnyPacket>) {
        self
    }

    fn into_any_maybe_arc(self) -> (r: Result<AnyPacket, Arc<AnyPacket>>) {
        Err(self)
    }
}

/// Getting a packet of one type back out of a packet of any type.
pub trait AnyDowncast: Sized {
    /// The packet of any type that holds this one.
    spec fn spec_as_any(self) -> AnyPacket;

    /// Whether `src` holds a packet of this type.
    spec fn spec_is_held(src: AnyPacket) -> bool;

    fn downcast(src: AnyPacket) -> (r: Result<Self, AnyPacket>)
        ensures
            Self::spec_is_held(src) <==> r is Ok,
            r matches Ok(p) ==> p.spec_as_any() == src,
            r matches Err(e) ==> e == src,
    ;

    fn downcast_ref(src: &AnyPacket) -> (r: Option<&Self>)
        ensures
            Self::spec_is_held(*src) <==> r is Some,
            r matches Some(p) ==> p.spec_as_any() == *src,
    ;

    fn downcast_mut(src: &mut AnyPacket) -> (r: Option<&mut Self>)
        ensures
            Self::spec_is_held(*old(src)) <==> r is Some,
            r matches Some(p) ==> (*p).spec_as_any() == *old(src) && *final(src) == (*final(p)).spec_as_any(),
            r is None ==> *final(src) == *old(src),
    ;
}

impl From<Seed> for AnyPacket {
    fn from(packet: Seed) -> (r: AnyPacket) {
        AnyPacket::Seed(packet)
    }
}

impl vstd::std_specs::convert::FromSpecImpl<Seed> for AnyPacket {
    open spec fn obeys_from_spec() -> bool {
        true
    }

    open spec fn from_spec(packet: Seed) -> AnyPacket {
        AnyPacket::Seed(packet)
    }
}

impl IntoAnyPacket for Seed {
    open spec fn spec_converts_to(&self, p: AnyPacket) -> bool {
        p == AnyPacket::Seed(*self)
    }

    fn into_any(self) -> (r: AnyPacket) {
        AnyPacket::Seed(self)
    }
}

impl AnyDowncast for Seed {
    open spec fn spec_as_any(self) -> AnyPacket {
        AnyPacket::Seed(self)
    }

    open spec fn spec_is_held(src: AnyPacket) -> bool {
        src is Seed
    }

    fn downcast(src: AnyPacket) -> (r: Result<Self, AnyPacket>) {
        match src {
            AnyPacket::Seed(p) => Ok(p),
            v => Err(v),
        }
    }

    fn downcast_ref(src: &AnyPacket) -> (r: Option<&Self>) {
        match src {
            AnyPacket::Seed(p) => Some(p),
            _ => None,
        }
    }

    fn downcast_mut(src: &mut AnyPacket) -> (r: Option<&mut Self>) {
        match src {
            AnyPacket::Seed(p) => Some(p),
            _ => None,
        }
    }
}

impl From<AccountLogin> for AnyPacket {
    fn from(packet: AccountLogin) -> (r: AnyPacket) {
        AnyPacket::AccountLogin(packet)
    }
}

impl vstd::std_specs::convert::FromSpecImpl<AccountLogin> for AnyPacket {
    open spec fn obeys_from_spec() -> bool {
        true
    }

    open spec fn from_spec(packet: AccountLogin) -> AnyPacket {
        AnyPacket::AccountLogin(packet)
    }
}

impl IntoAnyPacket for AccountLogin {
    open spec fn spec_converts_to(&self, p: AnyPacket) -> bool {
        p == AnyPacket::AccountLogin(*self)
    }

    fn into_any(self) -> (r: AnyPacket) {
        AnyPacket::AccountLogin(self)
    }
}

impl AnyDowncast for AccountLogin {
    open spec fn spec_as_any(self) -> AnyPacket {
        AnyPacket::AccountLogin(self)
    }

    open spec fn spec_is_held(src: AnyPacket) -> bool {
        src is AccountLogin
    }

    fn downcast(src: AnyPacket) -> (r: Result<Self, AnyPacket>) {
        match src {
            AnyPacket::AccountLogin(p) => Ok(p),
            v => Err(v),
        }
    }

    fn downcast_ref(src: &AnyPacket) -> (r: Option<&Self>) {
        match src {
            AnyPacket::AccountLogin(p) => Some(p),
            _ => None,
        }
    }

    fn downcast_mut(src: &mut AnyPacket) -> (r: Option<&mut Self>) {
        match src {
            AnyPacket::AccountLogin(p) => Some(p),
            _ => None,
        }
    }
}

impl From<ServerList> for AnyPacket {
    fn from(packet: ServerList) -> (r: AnyPacket) {
        AnyPacket::ServerList(packet)
    }
}

impl vstd::std_specs::convert::FromSpecImpl<ServerList> for AnyPacket {
    open spec fn obeys_from_spec() -> bool {
        true
    }

    open spec fn from_spec(packet: ServerList) -> AnyPacket {
        AnyPacket::ServerList(packet)
    }
}

impl IntoAnyPacket for ServerList {
    open spec fn spec_converts_to(&self, p: AnyPacket) -> bool {
        p == AnyPacket::ServerList(*self)
    }

    fn into_any(self) -> (r: AnyPacket) {
        AnyPacket::ServerList(self)
    }
}

impl AnyDowncast for ServerList {
    open spec fn spec_as_any(self) -> AnyPacket {
        AnyPacket::ServerList(self)
    }

    open spec fn spec_is_held(src: AnyPacket) -> bool {
        src is ServerList
    }

    fn downcast(src: AnyPacket) -> (r: Result<Self, AnyPacket>) {
        match src {
            AnyPacket::ServerList(p) => Ok(p),
            v => Err(v),
        }
    }

    fn downcast_ref(src: &AnyPacket) -> (r: Option<&Self>) {
        match src {
            AnyPacket::ServerList(p) => Some(p),
            _ => None,
        }
    }

    fn downcast_mut(src: &mut AnyPacket) -> (r: Option<&mut Self>) {
        match src {
            AnyPacket::ServerList(p) => Some(p),
            _ => None,
        }
    }
}

impl From<SelectGameServer> for AnyPacket {
    fn from(packet: SelectGameServer) -> (r: AnyPacket) {
        AnyPacket::SelectGameServer(packet)
    }
}

impl vstd::std_specs::convert::FromSpecImpl<SelectGameServer> for AnyPacket {
    open spec fn obeys_from_spec() -> bool {
        true
    }

    open spec fn from_spec(packet: SelectGameServer) -> AnyPacket {
        AnyPacket::SelectGameServer(packet)
    }
}

impl IntoAnyPacket for SelectGameServer {
    open spec fn spec_converts_to(&self, p: AnyPacket) -> bool {
        p == AnyPacket::SelectGameServer(*self)
    }

    fn into_any(self) -> (r: AnyPacket) {
        AnyPacket::SelectGameServer(self)
    }
}

impl AnyDowncast for SelectGameServer {
    open spec fn spec_as_any(self) -> AnyPacket {
        AnyPacket::SelectGameServer(self)
    }

    open spec fn spec_is_held(src: AnyPacket) -> bool {
        src is SelectGameServer
    }

    fn downcast(src: AnyPacket) -> (r: Result<Self, AnyPacket>) {
        match src {
            AnyPacket::SelectGameServer(p) => Ok(p),
            v => Err(v),
        }
    }

    fn downcast_ref(src: &AnyPacket) -> (r: Option<&Self>) {
        match src {
            AnyPacket::SelectGameServer(p) => Some(p),
            _ => None,
        }
    }

    fn downcast_mut(src: &mut AnyPacket) -> (r: Option<&mut Self>) {
        match src {
            AnyPacket::SelectGameServer(p) => Some(p),
            _ => None,
        }
    }
}

impl From<SwitchServer> for AnyPacket {
    fn from(packet: SwitchServer) -> (r: AnyPacket) {
        AnyPacket::SwitchServer(packet)
    }
}

impl vstd::std_specs::convert::FromSpecImpl<SwitchServer> for AnyPacket {
    open spec fn obeys_from_spec() -> bool {
        true
    }

    open spec fn from_spec(packet: SwitchServer) -> AnyPacket {
        AnyPacket::SwitchServer(packet)
    }
}

impl IntoAnyPacket for SwitchServer {
    open spec fn spec_converts_to(&self, p: AnyPacket) -> bool {
        p == AnyPacket::SwitchServer(*self)
    }

    fn into_any(self) -> (r: AnyPacket) {
        AnyPacket::SwitchServer(self)
    }
}

impl AnyDowncast for SwitchServer {
    open spec fn spec_as_any(self) -> AnyPacket {
        AnyPacket::SwitchServer(self)
    }

    open spec fn spec_is_held(src: AnyPacket) -> bool {
        src is SwitchServer
    }

    fn downcast(src: AnyPacket) -> (r: Result<Self, AnyPacket>) {
        match src {
            AnyPacket::SwitchServer(p) => Ok(p),
            v => Err(v),
        }
    }

    fn downcast_ref(src: &AnyPacket) -> (r: Option<&Self>) {
        match src {
            AnyPacket::SwitchServer(p) => Some(p),
            _ => None,
        }
    }

    fn downcast_mut(src: &mut AnyPacket) -> (r: Option<&mut Self>) {
        match src {
            AnyPacket::SwitchServer(p) => Some(p),
            _ => None,
        }
    }
}

impl From<GameServerLogin> for AnyPacket {
    fn from(packet: GameServerLogin) -> (r: AnyPacket) {
        AnyPacket::GameServerLogin(packet)
    }
}

impl vstd::std_specs::convert::FromSpecImpl<GameServerLogin> for AnyPacket {
    open spec fn obeys_from_spec() -> bool {
        true
    }

    open spec fn from_spec(packet: GameServerLogin) -> AnyPacket {
        AnyPacket::GameServerLogin(packet)
    }
}

impl IntoAnyPacket for GameServerLogin {
    open spec fn spec_converts_to(&self, p: AnyPacket) -> bool {
        p == AnyPacket::GameServerLogin(*self)
    }

    fn into_any(self) -> (r: AnyPacket) {
        AnyPacket::GameServerLogin(self)
    }
}

impl AnyDowncast for GameServerLogin {
    open spec fn spec_as_any(self) -> AnyPacket {
        AnyPacket::GameServerLogin(self)
    }

    open spec fn spec_is_held(src: AnyPacket) -> bool {
        src is GameServerLogin
    }

    fn downcast(src: AnyPacket) -> (r: Result<Self, AnyPacket>) {
        match src {
            AnyPacket::GameServerLogin(p) => Ok(p),
            v => Err(v),
        }
    }

    fn downcast_ref(src: &AnyPacket) -> (r: Option<&Self>) {
        match src {
            AnyPacket::GameServerLogin(p) => Some(p),
            _ => None,
        }
    }

    fn downcast_mut(src: &mut AnyPacket) -> (r: Option<&mut Self>) {
        match src {
            AnyPacket::GameServerLogin(p) => Some(p),
            _ => None,
        }
    }
}

impl From<SupportedFeatures> for AnyPacket {
    fn from(packet: SupportedFeatures) -> (r: AnyPacket) {
        AnyPacket::SupportedFeatures(packet)
    }
}

impl vstd::std_specs::convert::FromSpecImpl<SupportedFeatures> for AnyPacket {
    open spec fn obeys_from_spec() -> bool {
        true
    }

    open spec fn from_spec(packet: SupportedFeatures) -> AnyPacket {
        AnyPacket::SupportedFeatures(packet)
    }
}

impl IntoAnyPacket for SupportedFeatures {
    open spec fn spec_converts_to(&self, p: AnyPacket) -> bool {
        p == AnyPacket::SupportedFeatures(*self)
    }

    fn into_any(self) -> (r: AnyPacket) {
        AnyPacket::SupportedFeatures(self)
    }
}

impl AnyDowncast for SupportedFeatures {
    open spec fn spec_as_any(self) -> AnyPacket {
        AnyPacket::SupportedFeatures(self)
    }

    open spec fn spec_is_held(src: AnyPacket) -> bool {
        src is SupportedFeatures
    }

    fn downcast(src: AnyPacket) -> (r: Result<Self, AnyPacket>) {
        match src {
            AnyPacket::SupportedFeatures(p) => Ok(p),
            v => Err(v),
        }
    }

    fn downcast_ref(src: &AnyPacket) -> (r: Option<&Self>) {
        match src {
            AnyPacket::SupportedFeatures(p) => Some(p),
            _ => None,
        }
    }

    fn downcast_mut(src: &mut AnyPacket) -> (r: Option<&mut Self>) {
        match src {
            AnyPacket::SupportedFeatures(p) => Some(p),
            _ => None,
        }
    }
}

impl From<CharacterList> for AnyPacket {
    fn from(packet: CharacterList) -> (r: AnyPacket) {
        AnyPacket::CharacterList(packet)
    }
}

impl vstd::std_specs::convert::FromSpecImpl<CharacterList> for AnyPacket {
    open spec fn obeys_from_spec() -> bool {
        true
    }

    open spec fn from_spec(packet: CharacterList) -> AnyPacket {
        AnyPacket::CharacterList(packet)
    }
}

impl IntoAnyPacket for CharacterList {
    open spec fn spec_converts_to(&self, p: AnyPacket) -> bool {
        p == AnyPacket::CharacterList(*self)
    }

    fn into_any(self) -> (r: AnyPacket) {
        AnyPacket::CharacterList(self)
    }
}

impl AnyDowncast for CharacterList {
    open spec fn spec_as_any(self) -> AnyPacket {
        AnyPacket::CharacterList(self)
    }

    open spec fn spec_is_held(src: AnyPacket) -> bool {
        src is CharacterList
    }

    fn downcast(src: AnyPacket) -> (r: Result<Self, AnyPacket>) {
        match src {
            AnyPacket::CharacterList(p) => Ok(p),
            v => Err(v),
        }
    }

    fn downcast_ref(src: &AnyPacket) -> (r: Option<&Self>) {
        match src {
            AnyPacket::CharacterList(p) => Some(p),
            _ => None,
        }
    }

    fn downcast_mut(src: &mut AnyPacket) -> (r: Option<&mut Self>) {
        match src {
            AnyPacket::CharacterList(p) => Some(p),
            _ => None,
        }
    }
}

impl From<CreateCharacterClassic> for AnyPacket {
    fn from(packet: CreateCharacterClassic) -> (r: AnyPacket) {
        AnyPacket::CreateCharacterClassic(packet)
    }
}

impl vstd::std_specs::convert::FromSpecImpl<CreateCharacterClassic> for AnyPacket {
    open spec fn obeys_from_spec() -> bool {
        true
    }

    open spec fn from_spec(packet: CreateCharacterClassic) -> AnyPacket {
        AnyPacket::CreateCharacterClassic(packet)
    }
}

impl IntoAnyPacket for CreateCharacterClassic {
    open spec fn spec_converts_to(&self, p: AnyPacket) -> bool {
        p == AnyPacket::CreateCharacterClassic(*self)
    }

    fn into_any(self) -> (r: AnyPacket) {
        AnyPacket::CreateCharacterClassic(self)
    }
}

impl AnyDowncast for CreateCharacterClassic {
    open spec fn spec_as_any(self) -> AnyPacket {
        AnyPacket::CreateCharacterClassic(self)
    }

    open spec fn spec_is_held(src: AnyPacket) -> bool {
        src is CreateCharacterClassic
    }

    fn downcast(src: AnyPacket) -> (r: Result<Self, AnyPacket>) {
        match src {
            AnyPacket::CreateCharacterClassic(p) => Ok(p),
            v => Err(v),
        }
    }

    fn downcast_ref(src: &AnyPacket) -> (r: Option<&Self>) {
        match src {
            AnyPacket::CreateCharacterClassic(p) => Some(p),
            _ => None,
        }
    }

    fn downcast_mut(src: &mut AnyPacket) -> (r: Option<&mut Self>) {
        match src {
            AnyPacket::CreateCharacterClassic(p) => Some(p),
            _ => None,
        }
    }
}

impl From<CreateCharacterEnhanced> for AnyPacket {
    fn from(packet: CreateCharacterEnhanced) -> (r: AnyPacket) {
        AnyPacket::CreateCharacterEnhanced(packet)
    }
}

impl vstd::std_specs::convert::FromSpecImpl<CreateCharacterEnhanced> for AnyPacket {
    open spec fn obeys_from_spec() -> bool {
        true
    }

    open spec fn from_spec(packet: CreateCharacterEnhanced) -> AnyPacket {
        AnyPacket::CreateCharacterEnhanced(packet)
    }
}

impl IntoAnyPacket for CreateCharacterEnhanced {
    open spec fn spec_converts_to(&self, p: AnyPacket) -> bool {
        p == AnyPacket::CreateCharacterEnhanced(*self)
    }

    fn into_any(self) -> (r: AnyPacket) {
        AnyPacket::CreateCharacterEnhanced(self)
    }
}

impl AnyDowncast for CreateCharacterEnhanced {
    open spec fn spec_as_any(self) -> AnyPacket {
        AnyPacket::CreateCharacterEnhanced(self)
    }

    open spec fn spec_is_held(src: AnyPacket) -> bool {
        src is CreateCharacterEnhanced
    }

    fn downcast(src: AnyPacket) -> (r: Result<Self, AnyPacket>) {
        match src {
            AnyPacket::CreateCharacterEnhanced(p) => Ok(p),
            v => Err(v),
        }
    }

    fn downcast_ref(src: &AnyPacket) -> (r: Option<&Self>) {
        match src {
            AnyPacket::CreateCharacterEnhanced(p) => Some(p),
            _ => None,
        }
    }

    fn downcast_mut(src: &mut AnyPacket) -> (r: Option<&mut Self>) {
        match src {
            AnyPacket::CreateCharacterEnhanced(p) => Some(p),
            _ => None,
        }
    }
}

impl From<DeleteCharacter> for AnyPacket {
    fn from(packet: DeleteCharacter) -> (r: AnyPacket) {
        AnyPacket::DeleteCharacter(packet)
    }
}

impl vstd::std_specs::convert::FromSpecImpl<DeleteCharacter> for AnyPacket {
    open spec fn obeys_from_spec() -> bool {
        true
    }

    open spec fn from_spec(packet: DeleteCharacter) -> AnyPacket {
        AnyPacket::DeleteCharacter(packet)
    }
}

impl IntoAnyPacket for DeleteCharacter {
    open spec fn spec_converts_to(&self, p: AnyPacket) -> bool {
        p == AnyPacket::DeleteCharacter(*self)
    }

    fn into_any(self) -> (r: AnyPacket) {
        AnyPacket::DeleteCharacter(self)
    }
}

impl AnyDowncast for DeleteCharacter {
    open spec fn spec_as_any(self) -> AnyPacket {
        AnyPacket::DeleteCharacter(self)
    }

    open spec fn spec_is_held(src: AnyPacket) -> bool {
        src is DeleteCharacter
    }

    fn downcast(src: AnyPacket) -> (r: Result<Self, AnyPacket>) {
        match src {
            AnyPacket::DeleteCharacter(p) => Ok(p),
            v => Err(v),
        }
    }

    fn downcast_ref(src: &AnyPacket) -> (r: Option<&Self>) {
        match src {
            AnyPacket::DeleteCharacter(p) => Some(p),
            _ => None,
        }
    }

    fn downcast_mut(src: &mut AnyPacket) -> (r: Option<&mut Self>) {
        match src {
            AnyPacket::DeleteCharacter(p) => Some(p),
            _ => None,
        }
    }
}

impl From<SelectCharacter> for AnyPacket {
    fn from(packet: SelectCharacter) -> (r: AnyPacket) {
        AnyPacket::SelectCharacter(packet)
    }
}

impl vstd::std_specs::convert::FromSpecImpl<SelectCharacter> for AnyPacket {
    open spec fn obeys_from_spec() -> bool {
        true
    }

    open spec fn from_spec(packet: SelectCharacter) -> AnyPacket {
        AnyPacket::SelectCharacter(packet)
    }
}

impl IntoAnyPacket for SelectCharacter {
    open spec fn spec_converts_to(&self, p: AnyPacket) -> bool {
        p == AnyPacket::SelectCharacter(*self)
    }

    fn into_any(self) -> (r: AnyPacket) {
        AnyPacket::SelectCharacter(self)
    }
}

impl AnyDowncast for SelectCharacter {
    open spec fn spec_as_any(self) -> AnyPacket {
        AnyPacket::SelectCharacter(self)
    }

    open spec fn spec_is_held(src: AnyPacket) -> bool {
        src is SelectCharacter
    }

    fn downcast(src: AnyPacket) -> (r: Result<Self, AnyPacket>) {
        match src {
            AnyPacket::SelectCharacter(p) => Ok(p),
            v => Err(v),
        }
    }

    fn downcast_ref(src: &AnyPacket) -> (r: Option<&Self>) {
        match src {
            AnyPacket::SelectCharacter(p) => Some(p),
            _ => None,
        }
    }

    fn downcast_mut(src: &mut AnyPacket) -> (r: Option<&mut Self>) {
        match src {
            AnyPacket::SelectCharacter(p) => Some(p),
            _ => None,
        }
    }
}

impl From<ClientVersionRequest> for AnyPacket {
    fn from(packet: ClientVersionRequest) -> (r: AnyPacket) {
        AnyPacket::ClientVersionRequest(packet)
    }
}

impl vstd::std_specs::convert::FromSpecImpl<ClientVersionRequest> for AnyPacket {
    open spec fn obeys_from_spec() -> bool {
        true
    }

    open spec fn from_spec(packet: ClientVersionRequest) -> AnyPacket {
        AnyPacket::ClientVersionRequest(packet)
    }
}

impl IntoAnyPacket for ClientVersionRequest {
    open spec fn spec_converts_to(&self, p: AnyPacket) -> bool {
        p == AnyPacket::ClientVersionRequest(*self)
    }

    fn into_any(self) -> (r: AnyPacket) {
        AnyPacket::ClientVersionRequest(self)
    }
}

impl AnyDowncast for ClientVersionRequest {
    open spec fn spec_as_any(self) -> AnyPacket {
        AnyPacket::ClientVersionRequest(self)
    }

    open spec fn spec_is_held(src: AnyPacket) -> bool {
        src is ClientVersionRequest
    }

    fn downcast(src: AnyPacket) -> (r: Result<Self, AnyPacket>) {
        match src {
            AnyPacket::ClientVersionRequest(p) => Ok(p),
            v => Err(v),
        }
    }

    fn downcast_ref(src: &AnyPacket) -> (r: Option<&Self>) {
        match src {
            AnyPacket::ClientVersionRequest(p) => Some(p),
            _ => None,
        }
    }

    fn downcast_mut(src: &mut AnyPacket) -> (r: Option<&mut Self>) {
        match src {
            AnyPacket::ClientVersionRequest(p) => Some(p),
            _ => None,
        }
    }
}

impl From<BeginEnterWorld> for AnyPacket {
    fn from(packet: BeginEnterWorld) -> (r: AnyPacket) {
        AnyPacket::BeginEnterWorld(packet)
    }
}

impl vstd::std_specs::convert::FromSpecImpl<BeginEnterWorld> for AnyPacket {
    open spec fn obeys_from_spec() -> bool {
        true
    }

    open spec fn from_spec(packet: BeginEnterWorld) -> AnyPacket {
        AnyPacket::BeginEnterWorld(packet)
    }
}

impl IntoAnyPacket for BeginEnterWorld {
    open spec fn spec_converts_to(&self, p: AnyPacket) -> bool {
        p == AnyPacket::BeginEnterWorld(*self)
    }

    fn into_any(self) -> (r: AnyPacket) {
        AnyPacket::BeginEnterWorld(self)
    }
}

impl AnyDowncast for BeginEnterWorld {
    open spec fn spec_as_any(self) -> AnyPacket {
        AnyPacket::BeginEnterWorld(self)
    }

    open spec fn spec_is_held(src: AnyPacket) -> bool {
        src is BeginEnterWorld
    }

    fn downcast(src: AnyPacket) -> (r: Result<Self, AnyPacket>) {
        match src {
            AnyPacket::BeginEnterWorld(p) => Ok(p),
            v => Err(v),
        }
    }

    fn downcast_ref(src: &AnyPacket) -> (r: Option<&Self>) {
        match src {
            AnyPacket::BeginEnterWorld(p) => Some(p),
            _ => None,
        }
    }

    fn downcast_mut(src: &mut AnyPacket) -> (r: Option<&mut Self>) {
        match src {
            AnyPacket::BeginEnterWorld(p) => Some(p),
            _ => None,
        }
    }
}

impl From<EndEnterWorld> for AnyPacket {
    fn from(packet: EndEnterWorld) -> (r: AnyPacket) {
        AnyPacket::EndEnterWorld(packet)
    }
}

impl vstd::std_specs::convert::FromSpecImpl<EndEnterWorld> for AnyPacket {
    open spec fn obeys_from_spec() -> bool {
        true
    }

    open spec fn from_spec(packet: EndEnterWorld) -> AnyPacket {
        AnyPacket::EndEnterWorld(packet)
    }
}

impl IntoAnyPacket for EndEnterWorld {
    open spec fn spec_converts_to(&self, p: AnyPacket) -> bool {
        p == AnyPacket::EndEnterWorld(*self)
    }

    fn into_any(self) -> (r: AnyPacket) {
        AnyPacket::EndEnterWorld(self)
    }
}

impl AnyDowncast for EndEnterWorld {
    open spec fn spec_as_any(self) -> AnyPacket {
        AnyPacket::EndEnterWorld(self)
    }

    open spec fn spec_is_held(src: AnyPacket) -> bool {
        src is EndEnterWorld
    }

    fn downcast(src: AnyPacket) -> (r: Result<Self, AnyPacket>) {
        match src {
            AnyPacket::EndEnterWorld(p) => Ok(p),
            v => Err(v),
        }
    }

    fn downcast_ref(src: &AnyPacket) -> (r: Option<&Self>) {
        match src {
            AnyPacket::EndEnterWorld(p) => Some(p),
            _ => None,
        }
    }

    fn downcast_mut(src: &mut AnyPacket) -> (r: Option<&mut Self>) {
        match src {
            AnyPacket::EndEnterWorld(p) => Some(p),
            _ => None,
        }
    }
}

impl From<ShowPublicHouses> for AnyPacket {
    fn from(packet: ShowPublicHouses) -> (r: AnyPacket) {
        AnyPacket::ShowPublicHouses(packet)
    }
}

impl vstd::std_specs::convert::FromSpecImpl<ShowPublicHouses> for AnyPacket {
    open spec fn obeys_from_spec() -> bool {
        true
    }

    open spec fn from_spec(packet: ShowPublicHouses) -> AnyPacket {
        AnyPacket::ShowPublicHouses(packet)
    }
}

impl IntoAnyPacket for ShowPublicHouses {
    open spec fn spec_converts_to(&self, p: AnyPacket) -> bool {
        p == AnyPacket::ShowPublicHouses(*self)
    }

    fn into_any(self) -> (r: AnyPacket) {
        AnyPacket::ShowPublicHouses(self)
    }
}

impl AnyDowncast for ShowPublicHouses {
    open spec fn spec_as_any(self) -> AnyPacket {
        AnyPacket::ShowPublicHouses(self)
    }

    open spec fn spec_is_held(src: AnyPacket) -> bool {
        src is ShowPublicHouses
    }

    fn downcast(src: AnyPacket) -> (r: Result<Self, AnyPacket>) {
        match src {
            AnyPacket::ShowPublicHouses(p) => Ok(p),
            v => Err(v),
        }
    }

    fn downcast_ref(src: &AnyPacket) -> (r: Option<&Self>) {
        match src {
            AnyPacket::ShowPublicHouses(p) => Some(p),
            _ => None,
        }
    }

    fn downcast_mut(src: &mut AnyPacket) -> (r: Option<&mut Self>) {
        match src {
            AnyPacket::ShowPublicHouses(p) => Some(p),
            _ => None,
        }
    }
}

impl From<Ping> for AnyPacket {
    fn from(packet: Ping) -> (r: AnyPacket) {
        AnyPacket::Ping(packet)
    }
}

impl vstd::std_specs::convert::FromSpecImpl<Ping> for AnyPacket {
    open spec fn obeys_from_spec() -> bool {
        true
    }

    open spec fn from_spec(packet: Ping) -> AnyPacket {
        AnyPacket::Ping(packet)
    }
}

impl IntoAnyPacket for Ping {
    open spec fn spec_converts_to(&self, p: AnyPacket) -> bool {
        p == AnyPacket::Ping(*self)
    }

    fn into_any(self) -> (r: AnyPacket) {
        AnyPacket::Ping(self)
    }
}

impl AnyDowncast for Ping {
    open spec fn spec_as_any(self) -> AnyPacket {
        AnyPacket::Ping(self)
    }

    open spec fn spec_is_held(src: AnyPacket) -> bool {
        src is Ping
    }

    fn downcast(src: AnyPacket) -> (r: Result<Self, AnyPacket>) {
        match src {
            AnyPacket::Ping(p) => Ok(p),
            v => Err(v),
        }
    }

    fn downcast_ref(src: &AnyPacket) -> (r: Option<&Self>) {
        match src {
            AnyPacket::Ping(p) => Some(p),
            _ => None,
        }
    }

    fn downcast_mut(src: &mut AnyPacket) -> (r: Option<&mut Self>) {
        match src {
            AnyPacket::Ping(p) => Some(p),
            _ => None,
        }
    }
}

impl From<ExtendedCommand> for AnyPacket {
    fn from(packet: ExtendedCommand) -> (r: AnyPacket) {
        AnyPacket::ExtendedCommand(packet)
    }
}

impl vstd::std_specs::convert::FromSpecImpl<ExtendedCommand> for AnyPacket {
    open spec fn obeys_from_spec() -> bool {
        true
    }

    open spec fn from_spec(packet: ExtendedCommand) -> AnyPacket {
        AnyPacket::ExtendedCommand(packet)
    }
}

impl IntoAnyPacket for ExtendedCommand {
    open spec fn spec_converts_to(&self, p: AnyPacket) -> bool {
        p == AnyPacket::ExtendedCommand(*self)
    }

    fn into_any(self) -> (r: AnyPacket) {
        AnyPacket::ExtendedCommand(self)
    }
}

impl AnyDowncast for ExtendedCommand {
    open spec fn spec_as_any(self) -> AnyPacket {
        AnyPacket::ExtendedCommand(self)
    }

    open spec fn spec_is_held(src: AnyPacket) -> bool {
        src is ExtendedCommand
    }

    fn downcast(src: AnyPacket) -> (r: Result<Self, AnyPacket>) {
        match src {
            AnyPacket::ExtendedCommand(p) => Ok(p),
            v => Err(v),
        }
    }

    fn downcast_ref(src: &AnyPacket) -> (r: Option<&Self>) {
        match src {
            AnyPacket::ExtendedCommand(p) => Some(p),
            _ => None,
        }
    }

    fn downcast_mut(src: &mut AnyPacket) -> (r: Option<&mut Self>) {
        match src {
            AnyPacket::ExtendedCommand(p) => Some(p),
            _ => None,
        }
    }
}

impl From<ExtendedCommandAos> for AnyPacket {
    fn from(packet: ExtendedCommandAos) -> (r: AnyPacket) {
        AnyPacket::ExtendedCommandAos(packet)
    }
}

impl vstd::std_specs::convert::FromSpecImpl<ExtendedCommandAos> for AnyPacket {
    open spec fn obeys_from_spec() -> bool {
        true
    }

    open spec fn from_spec(packet: ExtendedCommandAos) -> AnyPacket {
        AnyPacket::ExtendedCommandAos(packet)
    }
}

impl IntoAnyPacket for ExtendedCommandAos {
    open spec fn spec_converts_to(&self, p: AnyPacket) -> bool {
        p == AnyPacket::ExtendedCommandAos(*self)
    }

    fn into_any(self) -> (r: AnyPacket) {
        AnyPacket::ExtendedCommandAos(self)
    }
}

impl AnyDowncast for ExtendedCommandAos {
    open spec fn spec_as_any(self) -> AnyPacket {
        AnyPacket::ExtendedCommandAos(self)
    }

    open spec fn spec_is_held(src: AnyPacket) -> bool {
        src is ExtendedCommandAos
    }

    fn downcast(src: AnyPacket) -> (r: Result<Self, AnyPacket>) {
        match src {
            AnyPacket::ExtendedCommandAos(p) => Ok(p),
            v => Err(v),
        }
    }

    fn downcast_ref(src: &AnyPacket) -> (r: Option<&Self>) {
        match src {
            AnyPacket::ExtendedCommandAos(p) => Some(p),
            _ => None,
        }
    }

    fn downcast_mut(src: &mut AnyPacket) -> (r: Option<&mut Self>) {
        match src {
            AnyPacket::ExtendedCommandAos(p) => Some(p),
            _ => None,
        }
    }
}

impl From<Move> for AnyPacket {
    fn from(packet: Move) -> (r: AnyPacket) {
        AnyPacket::Move(packet)
    }
}

impl vstd::std_specs::convert::FromSpecImpl<Move> for AnyPacket {
    open spec fn obeys_from_spec() -> bool {
        true
    }

    open spec fn from_spec(packet: Move) -> AnyPacket {
        AnyPacket::Move(packet)
    }
}

impl IntoAnyPacket for Move {
    open spec fn spec_converts_to(&self, p: AnyPacket) -> bool {
        p == AnyPacket::Move(*self)
    }

    fn into_any(self) -> (r: AnyPacket) {
        AnyPacket::Move(self)
    }
}

impl AnyDowncast for Move {
    open spec fn spec_as_any(self) -> AnyPacket {
        AnyPacket::Move(self)
    }

    open spec fn spec_is_held(src: AnyPacket) -> bool {
        src is Move
    }

    fn downcast(src: AnyPacket) -> (r: Result<Self, AnyPacket>) {
        match src {
            AnyPacket::Move(p) => Ok(p),
            v => Err(v),
        }
    }

    fn downcast_ref(src: &AnyPacket) -> (r: Option<&Self>) {
        match src {
            AnyPacket::Move(p) => Some(p),
            _ => None,
        }
    }

    fn downcast_mut(src: &mut AnyPacket) -> (r: Option<&mut Self>) {
        match src {
            AnyPacket::Move(p) => Some(p),
            _ => None,
        }
    }
}

impl From<MoveConfirm> for AnyPacket {
    fn from(packet: MoveConfirm) -> (r: AnyPacket) {
        AnyPacket::MoveConfirm(packet)
    }
}

impl vstd::std_specs::convert::FromSpecImpl<MoveConfirm> for AnyPacket {
    open spec fn obeys_from_spec() -> bool {
        true
    }

    open spec fn from_spec(packet: MoveConfirm) -> AnyPacket {
        AnyPacket::MoveConfirm(packet)
    }
}

impl IntoAnyPacket for MoveConfirm {
    open spec fn spec_converts_to(&self, p: AnyPacket) -> bool {
        p == AnyPacket::MoveConfirm(*self)
    }

    fn into_any(self) -> (r: AnyPacket) {
        AnyPacket::MoveConfirm(self)
    }
}

impl AnyDowncast for MoveConfirm {
    open spec fn spec_as_any(self) -> AnyPacket {
        AnyPacket::MoveConfirm(self)
    }

    open spec fn spec_is_held(src: AnyPacket) -> bool {
        src is MoveConfirm
    }

    fn downcast(src: AnyPacket) -> (r: Result<Self, AnyPacket>) {
        match src {
            AnyPacket::MoveConfirm(p) => Ok(p),
            v => Err(v),
        }
    }

    fn downcast_ref(src: &AnyPacket) -> (r: Option<&Self>) {
        match src {
            AnyPacket::MoveConfirm(p) => Some(p),
            _ => None,
        }
    }

    fn downcast_mut(src: &mut AnyPacket) -> (r: Option<&mut Self>) {
        match src {
            AnyPacket::MoveConfirm(p) => Some(p),
            _ => None,
        }
    }
}

impl From<MoveReject> for AnyPacket {
    fn from(packet: MoveReject) -> (r: AnyPacket) {
        AnyPacket::MoveReject(packet)
    }
}

impl vstd::std_specs::convert::FromSpecImpl<MoveReject> for AnyPacket {
    open spec fn obeys_from_spec() -> bool {
        true
    }

    open spec fn from_spec(packet: MoveReject) -> AnyPacket {
        AnyPacket::MoveReject(packet)
    }
}

impl IntoAnyPacket for MoveReject {
    open spec fn spec_converts_to(&self, p: AnyPacket) -> bool {
        p == AnyPacket::MoveReject(*self)
    }

    fn into_any(self) -> (r: AnyPacket) {
        AnyPacket::MoveReject(self)
    }
}

impl AnyDowncast for MoveReject {
    open spec fn spec_as_any(self) -> AnyPacket {
        AnyPacket::MoveReject(self)
    }

    open spec fn spec_is_held(src: AnyPacket) -> bool {
        src is MoveReject
    }

    fn downcast(src: AnyPacket) -> (r: Result<Self, AnyPacket>) {
        match src {
            AnyPacket::MoveReject(p) => Ok(p),
            v => Err(v),
        }
    }

    fn downcast_ref(src: &AnyPacket) -> (r: Option<&Self>) {
        match src {
            AnyPacket::MoveReject(p) => Some(p),
            _ => None,
        }
    }

    fn downcast_mut(src: &mut AnyPacket) -> (r: Option<&mut Self>) {
        match src {
            AnyPacket::MoveReject(p) => Some(p),
            _ => None,
        }
    }
}

impl From<SingleClick> for AnyPacket {
    fn from(packet: SingleClick) -> (r: AnyPacket) {
        AnyPacket::SingleClick(packet)
    }
}

impl vstd::std_specs::convert::FromSpecImpl<SingleClick> for AnyPacket {
    open spec fn obeys_from_spec() -> bool {
        true
    }

    open spec fn from_spec(packet: SingleClick) -> AnyPacket {
        AnyPacket::SingleClick(packet)
    }
}

impl IntoAnyPacket for SingleClick {
    open spec fn spec_converts_to(&self, p: AnyPacket) -> bool {
        p == AnyPacket::SingleClick(*self)
    }

    fn into_any(self) -> (r: AnyPacket) {
        AnyPacket::SingleClick(self)
    }
}

impl AnyDowncast for SingleClick {
    open spec fn spec_as_any(self) -> AnyPacket {
        AnyPacket::SingleClick(self)
    }

    open spec fn spec_is_held(src: AnyPacket) -> bool {
        src is SingleClick
    }

    fn downcast(src: AnyPacket) -> (r: Result<Self, AnyPacket>) {
        match src {
            AnyPacket::SingleClick(p) => Ok(p),
            v => Err(v),
        }
    }

    fn downcast_ref(src: &AnyPacket) -> (r: Option<&Self>) {
        match src {
            AnyPacket::SingleClick(p) => Some(p),
            _ => None,
        }
    }

    fn downcast_mut(src: &mut AnyPacket) -> (r: Option<&mut Self>) {
        match src {
            AnyPacket::SingleClick(p) => Some(p),
            _ => None,
        }
    }
}

impl From<DoubleClick> for AnyPacket {
    fn from(packet: DoubleClick) -> (r: AnyPacket) {
        AnyPacket::DoubleClick(packet)
    }
}

impl vstd::std_specs::convert::FromSpecImpl<DoubleClick> for AnyPacket {
    open spec fn obeys_from_spec() -> bool {
        true
    }

    open spec fn from_spec(packet: DoubleClick) -> AnyPacket {
        AnyPacket::DoubleClick(packet)
    }
}

impl IntoAnyPacket for DoubleClick {
    open spec fn spec_converts_to(&self, p: AnyPacket) -> bool {
        p == AnyPacket::DoubleClick(*self)
    }

    fn into_any(self) -> (r: AnyPacket) {
        AnyPacket::DoubleClick(self)
    }
}

impl AnyDowncast for DoubleClick {
    open spec fn spec_as_any(self) -> AnyPacket {
        AnyPacket::DoubleClick(self)
    }

    open spec fn spec_is_held(src: AnyPacket) -> bool {
        src is DoubleClick
    }

    fn downcast(src: AnyPacket) -> (r: Result<Self, AnyPacket>) {
        match src {
            AnyPacket::DoubleClick(p) => Ok(p),
            v => Err(v),
        }
    }

    fn downcast_ref(src: &AnyPacket) -> (r: Option<&Self>) {
        match src {
            AnyPacket::DoubleClick(p) => Some(p),
            _ => None,
        }
    }

    fn downcast_mut(src: &mut AnyPacket) -> (r: Option<&mut Self>) {
        match src {
            AnyPacket::DoubleClick(p) => Some(p),
            _ => None,
        }
    }
}

impl From<PickUpEntity> for AnyPacket {
    fn from(packet: PickUpEntity) -> (r: AnyPacket) {
        AnyPacket::PickUpEntity(packet)
    }
}

impl vstd::std_specs::convert::FromSpecImpl<PickUpEntity> for AnyPacket {
    open spec fn obeys_from_spec() -> bool {
        true
    }

    open spec fn from_spec(packet: PickUpEntity) -> AnyPacket {
        AnyPacket::PickUpEntity(packet)
    }
}

impl IntoAnyPacket for PickUpEntity {
    open spec fn spec_converts_to(&self, p: AnyPacket) -> bool {
        p == AnyPacket::PickUpEntity(*self)
    }

    fn into_any(self) -> (r: AnyPacket) {
        AnyPacket::PickUpEntity(self)
    }
}

impl AnyDowncast for PickUpEntity {
    open spec fn spec_as_any(self) -> AnyPacket {
        AnyPacket::PickUpEntity(self)
    }

    open spec fn spec_is_held(src: AnyPacket) -> bool {
        src is PickUpEntity
    }

    fn downcast(src: AnyPacket) -> (r: Result<Self, AnyPacket>) {
        match src {
            AnyPacket::PickUpEntity(p) => Ok(p),
            v => Err(v),
        }
    }

    fn downcast_ref(src: &AnyPacket) -> (r: Option<&Self>) {
        match src {
            AnyPacket::PickUpEntity(p) => Some(p),
            _ => None,
        }
    }

    fn downcast_mut(src: &mut AnyPacket) -> (r: Option<&mut Self>) {
        match src {
            AnyPacket::PickUpEntity(p) => Some(p),
            _ => None,
        }
    }
}

impl From<DropEntity> for AnyPacket {
    fn from(packet: DropEntity) -> (r: AnyPacket) {
        AnyPacket::DropEntity(packet)
    }
}

impl vstd::std_specs::convert::FromSpecImpl<DropEntity> for AnyPacket {
    open spec fn obeys_from_spec() -> bool {
        true
    }

    open spec fn from_spec(packet: DropEntity) -> AnyPacket {
        AnyPacket::DropEntity(packet)
    }
}

impl IntoAnyPacket for DropEntity {
    open spec fn spec_converts_to(&self, p: AnyPacket) -> bool {
        p == AnyPacket::DropEntity(*self)
    }

    fn into_any(self) -> (r: AnyPacket) {
        AnyPacket::DropEntity(self)
    }
}

impl AnyDowncast for DropEntity {
    open spec fn spec_as_any(self) -> AnyPacket {
        AnyPacket::DropEntity(self)
    }

    open spec fn spec_is_held(src: AnyPacket) -> bool {
        src is DropEntity
    }

    fn downcast(src: AnyPacket) -> (r: Result<Self, AnyPacket>) {
        match src {
            AnyPacket::DropEntity(p) => Ok(p),
            v => Err(v),
        }
    }

    fn downcast_ref(src: &AnyPacket) -> (r: Option<&Self>) {
        match src {
            AnyPacket::DropEntity(p) => Some(p),
            _ => None,
        }
    }

    fn downcast_mut(src: &mut AnyPacket) -> (r: Option<&mut Self>) {
        match src {
            AnyPacket::DropEntity(p) => Some(p),
            _ => None,
        }
    }
}

impl From<MoveEntityReject> for AnyPacket {
    fn from(packet: MoveEntityReject) -> (r: AnyPacket) {
        AnyPacket::MoveEntityReject(packet)
    }
}

impl vstd::std_specs::convert::FromSpecImpl<MoveEntityReject> for AnyPacket {
    open spec fn obeys_from_spec() -> bool {
        true
    }

    open spec fn from_spec(packet: MoveEntityReject) -> AnyPacket {
        AnyPacket::MoveEntityReject(packet)
    }
}

impl IntoAnyPacket for MoveEntityReject {
    open spec fn spec_converts_to(&self, p: AnyPacket) -> bool {
        p == AnyPacket::MoveEntityReject(*self)
    }

    fn into_any(self) -> (r: AnyPacket) {
        AnyPacket::MoveEntityReject(self)
    }
}

impl AnyDowncast for MoveEntityReject {
    open spec fn spec_as_any(self) -> AnyPacket {
        AnyPacket::MoveEntityReject(self)
    }

    open spec fn spec_is_held(src: AnyPacket) -> bool {
        src is MoveEntityReject
    }

    fn downcast(src: AnyPacket) -> (r: Result<Self, AnyPacket>) {
        match src {
            AnyPacket::MoveEntityReject(p) => Ok(p),
            v => Err(v),
        }
    }

    fn downcast_ref(src: &AnyPacket) -> (r: Option<&Self>) {
        match src {
            AnyPacket::MoveEntityReject(p) => Some(p),
            _ => None,
        }
    }

    fn downcast_mut(src: &mut AnyPacket) -> (r: Option<&mut Self>) {
        match src {
            AnyPacket::MoveEntityReject(p) => Some(p),
            _ => None,
        }
    }
}

impl From<PickTarget> for AnyPacket {
    fn from(packet: PickTarget) -> (r: AnyPacket) {
        AnyPacket::PickTarget(packet)
    }
}

impl vstd::std_specs::convert::FromSpecImpl<PickTarget> for AnyPacket {
    open spec fn obeys_from_spec() -> bool {
        true
    }

    open spec fn from_spec(packet: PickTarget) -> AnyPacket {
        AnyPacket::PickTarget(packet)
    }
}

impl IntoAnyPacket for PickTarget {
    open spec fn spec_converts_to(&self, p: AnyPacket) -> bool {
        p == AnyPacket::PickTarget(*self)
    }

    fn into_any(self) -> (r: AnyPacket) {
        AnyPacket::PickTarget(self)
    }
}

impl AnyDowncast for PickTarget {
    open spec fn spec_as_any(self) -> AnyPacket {
        AnyPacket::PickTarget(self)
    }

    open spec fn spec_is_held(src: AnyPacket) -> bool {
        src is PickTarget
    }

    fn downcast(src: AnyPacket) -> (r: Result<Self, AnyPacket>) {
        match src {
            AnyPacket::PickTarget(p) => Ok(p),
            v => Err(v),
        }
    }

    fn downcast_ref(src: &AnyPacket) -> (r: Option<&Self>) {
        match src {
            AnyPacket::PickTarget(p) => Some(p),
            _ => None,
        }
    }

    fn downcast_mut(src: &mut AnyPacket) -> (r: Option<&mut Self>) {
        match src {
            AnyPacket::PickTarget(p) => Some(p),
            _ => None,
        }
    }
}

impl From<OpenChatWindow> for AnyPacket {
    fn from(packet: OpenChatWindow) -> (r: AnyPacket) {
        AnyPacket::OpenChatWindow(packet)
    }
}

impl vstd::std_specs::convert::FromSpecImpl<OpenChatWindow> for AnyPacket {
    open spec fn obeys_from_spec() -> bool {
        true
    }

    open spec fn from_spec(packet: OpenChatWindow) -> AnyPacket {
        AnyPacket::OpenChatWindow(packet)
    }
}

impl IntoAnyPacket for OpenChatWindow {
    open spec fn spec_converts_to(&self, p: AnyPacket) -> bool {
        p == AnyPacket::OpenChatWindow(*self)
    }

    fn into_any(self) -> (r: AnyPacket) {
        AnyPacket::OpenChatWindow(self)
    }
}

impl AnyDowncast for OpenChatWindow {
    open spec fn spec_as_any(self) -> AnyPacket {
        AnyPacket::OpenChatWindow(self)
    }

    open spec fn spec_is_held(src: AnyPacket) -> bool {
        src is OpenChatWindow
    }

    fn downcast(src: AnyPacket) -> (r: Result<Self, AnyPacket>) {
        match src {
            AnyPacket::OpenChatWindow(p) => Ok(p),
            v => Err(v),
        }
    }

    fn downcast_ref(src: &AnyPacket) -> (r: Option<&Self>) {
        match src {
            AnyPacket::OpenChatWindow(p) => Some(p),
            _ => None,
        }
    }

    fn downcast_mut(src: &mut AnyPacket) -> (r: Option<&mut Self>) {
        match src {
            AnyPacket::OpenChatWindow(p) => Some(p),
            _ => None,
        }
    }
}

impl From<OpenPaperDoll> for AnyPacket {
    fn from(packet: OpenPaperDoll) -> (r: AnyPacket) {
        AnyPacket::OpenPaperDoll(packet)
    }
}

impl vstd::std_specs::convert::FromSpecImpl<OpenPaperDoll> for AnyPacket {
    open spec fn obeys_from_spec() -> bool {
        true
    }

    open spec fn from_spec(packet: OpenPaperDoll) -> AnyPacket {
        AnyPacket::OpenPaperDoll(packet)
    }
}

impl IntoAnyPacket for OpenPaperDoll {
    open spec fn spec_converts_to(&self, p: AnyPacket) -> bool {
        p == AnyPacket::OpenPaperDoll(*self)
    }

    fn into_any(self) -> (r: AnyPacket) {
        AnyPacket::OpenPaperDoll(self)
    }
}

impl AnyDowncast for OpenPaperDoll {
    open spec fn spec_as_any(self) -> AnyPacket {
        AnyPacket::OpenPaperDoll(self)
    }

    open spec fn spec_is_held(src: AnyPacket) -> bool {
        src is OpenPaperDoll
    }

    fn downcast(src: AnyPacket) -> (r: Result<Self, AnyPacket>) {
        match src {
            AnyPacket::OpenPaperDoll(p) => Ok(p),
            v => Err(v),
        }
    }

    fn downcast_ref(src: &AnyPacket) -> (r: Option<&Self>) {
        match src {
            AnyPacket::OpenPaperDoll(p) => Some(p),
            _ => None,
        }
    }

    fn downcast_mut(src: &mut AnyPacket) -> (r: Option<&mut Self>) {
        match src {
            AnyPacket::OpenPaperDoll(p) => Some(p),
            _ => None,
        }
    }
}

impl From<OpenContainer> for AnyPacket {
    fn from(packet: OpenContainer) -> (r: AnyPacket) {
        AnyPacket::OpenContainer(packet)
    }
}

impl vstd::std_specs::convert::FromSpecImpl<OpenContainer> for AnyPacket {
    open spec fn obeys_from_spec() -> bool {
        true
    }

    open spec fn from_spec(packet: OpenContainer) -> AnyPacket {
        AnyPacket::OpenContainer(packet)
    }
}

impl IntoAnyPacket for OpenContainer {
    open spec fn spec_converts_to(&self, p: AnyPacket) -> bool {
        p == AnyPacket::OpenContainer(*self)
    }

    fn into_any(self) -> (r: AnyPacket) {
        AnyPacket::OpenContainer(self)
    }
}

impl AnyDowncast for OpenContainer {
    open spec fn spec_as_any(self) -> AnyPacket {
        AnyPacket::OpenContainer(self)
    }

    open spec fn spec_is_held(src: AnyPacket) -> bool {
        src is OpenContainer
    }

    fn downcast(src: AnyPacket) -> (r: Result<Self, AnyPacket>) {
        match src {
            AnyPacket::OpenContainer(p) => Ok(p),
            v => Err(v),
        }
    }

    fn downcast_ref(src: &AnyPacket) -> (r: Option<&Self>) {
        match src {
            AnyPacket::OpenContainer(p) => Some(p),
            _ => None,
        }
    }

    fn downcast_mut(src: &mut AnyPacket) -> (r: Option<&mut Self>) {
        match src {
            AnyPacket::OpenContainer(p) => Some(p),
            _ => None,
        }
    }
}

impl From<OpenGump> for AnyPacket {
    fn from(packet: OpenGump) -> (r: AnyPacket) {
        AnyPacket::OpenGump(packet)
    }
}

impl vstd::std_specs::convert::FromSpecImpl<OpenGump> for AnyPacket {
    open spec fn obeys_from_spec() -> bool {
        true
    }

    open spec fn from_spec(packet: OpenGump) -> AnyPacket {
        AnyPacket::OpenGump(packet)
    }
}

impl IntoAnyPacket for OpenGump {
    open spec fn spec_converts_to(&self, p: AnyPacket) -> bool {
        p == AnyPacket::OpenGump(*self)
    }

    fn into_any(self) -> (r: AnyPacket) {
        AnyPacket::OpenGump(self)
    }
}

impl AnyDowncast for OpenGump {
    open spec fn spec_as_any(self) -> AnyPacket {
        AnyPacket::OpenGump(self)
    }

    open spec fn spec_is_held(src: AnyPacket) -> bool {
        src is OpenGump
    }

    fn downcast(src: AnyPacket) -> (r: Result<Self, AnyPacket>) {
        match src {
            AnyPacket::OpenGump(p) => Ok(p),
            v => Err(v),
        }
    }

    fn downcast_ref(src: &AnyPacket) -> (r: Option<&Self>) {
        match src {
            AnyPacket::OpenGump(p) => Some(p),
            _ => None,
        }
    }

    fn downcast_mut(src: &mut AnyPacket) -> (r: Option<&mut Self>) {
        match src {
            AnyPacket::OpenGump(p) => Some(p),
            _ => None,
        }
    }
}

impl From<OpenGumpCompressed> for AnyPacket {
    fn from(packet: OpenGumpCompressed) -> (r: AnyPacket) {
        AnyPacket::OpenGumpCompressed(packet)
    }
}

impl vstd::std_specs::convert::FromSpecImpl<OpenGumpCompressed> for AnyPacket {
    open spec fn obeys_from_spec() -> bool {
        true
    }

    open spec fn from_spec(packet: OpenGumpCompressed) -> AnyPacket {
        AnyPacket::OpenGumpCompressed(packet)
    }
}

impl IntoAnyPacket for OpenGumpCompressed {
    open spec fn spec_converts_to(&self, p: AnyPacket) -> bool {
        p == AnyPacket::OpenGumpCompressed(*self)
    }

    fn into_any(self) -> (r: AnyPacket) {
        AnyPacket::OpenGumpCompressed(self)
    }
}

impl AnyDowncast for OpenGumpCompressed {
    open spec fn spec_as_any(self) -> AnyPacket {
        AnyPacket::OpenGumpCompressed(self)
    }

    open spec fn spec_is_held(src: AnyPacket) -> bool {
        src is OpenGumpCompressed
    }

    fn downcast(src: AnyPacket) -> (r: Result<Self, AnyPacket>) {
        match src {
            AnyPacket::OpenGumpCompressed(p) => Ok(p),
            v => Err(v),
        }
    }

    fn downcast_ref(src: &AnyPacket) -> (r: Option<&Self>) {
        match src {
            AnyPacket::OpenGumpCompressed(p) => Some(p),
            _ => None,
        }
    }

    fn downcast_mut(src: &mut AnyPacket) -> (r: Option<&mut Self>) {
        match src {
            AnyPacket::OpenGumpCompressed(p) => Some(p),
            _ => None,
        }
    }
}

impl From<GumpResult> for AnyPacket {
    fn from(packet: GumpResult) -> (r: AnyPacket) {
        AnyPacket::GumpResult(packet)
    }
}

impl vstd::std_specs::convert::FromSpecImpl<GumpResult> for AnyPacket {
    open spec fn obeys_from_spec() -> bool {
        true
    }

    open spec fn from_spec(packet: GumpResult) -> AnyPacket {
        AnyPacket::GumpResult(packet)
    }
}

impl IntoAnyPacket for GumpResult {
    open spec fn spec_converts_to(&self, p: AnyPacket) -> bool {
        p == AnyPacket::GumpResult(*self)
    }

    fn into_any(self) -> (r: AnyPacket) {
        AnyPacket::GumpResult(self)
    }
}

impl AnyDowncast for GumpResult {
    open spec fn spec_as_any(self) -> AnyPacket {
        AnyPacket::GumpResult(self)
    }

    open spec fn spec_is_held(src: AnyPacket) -> bool {
        src is GumpResult
    }

    fn downcast(src: AnyPacket) -> (r: Result<Self, AnyPacket>) {
        match src {
            AnyPacket::GumpResult(p) => Ok(p),
            v => Err(v),
        }
    }

    fn downcast_ref(src: &AnyPacket) -> (r: Option<&Self>) {
        match src {
            AnyPacket::GumpResult(p) => Some(p),
            _ => None,
        }
    }

    fn downcast_mut(src: &mut AnyPacket) -> (r: Option<&mut Self>) {
        match src {
            AnyPacket::GumpResult(p) => Some(p),
            _ => None,
        }
    }
}

impl From<AsciiTextMessage> for AnyPacket {
    fn from(packet: AsciiTextMessage) -> (r: AnyPacket) {
        AnyPacket::AsciiTextMessage(packet)
    }
}

impl vstd::std_specs::convert::FromSpecImpl<AsciiTextMessage> for AnyPacket {
    open spec fn obeys_from_spec() -> bool {
        true
    }

    open spec fn from_spec(packet: AsciiTextMessage) -> AnyPacket {
        AnyPacket::AsciiTextMessage(packet)
    }
}

impl IntoAnyPacket for AsciiTextMessage {
    open spec fn spec_converts_to(&self, p: AnyPacket) -> bool {
        p == AnyPacket::AsciiTextMessage(*self)
    }

    fn into_any(self) -> (r: AnyPacket) {
        AnyPacket::AsciiTextMessage(self)
    }
}

impl AnyDowncast for AsciiTextMessage {
    open spec fn spec_as_any(self) -> AnyPacket {
        AnyPacket::AsciiTextMessage(self)
    }

    open spec fn spec_is_held(src: AnyPacket) -> bool {
        src is AsciiTextMessage
    }

    fn downcast(src: AnyPacket) -> (r: Result<Self, AnyPacket>) {
        match src {
            AnyPacket::AsciiTextMessage(p) => Ok(p),
            v => Err(v),
        }
    }

    fn downcast_ref(src: &AnyPacket) -> (r: Option<&Self>) {
        match src {
            AnyPacket::AsciiTextMessage(p) => Some(p),
            _ => None,
        }
    }

    fn downcast_mut(src: &mut AnyPacket) -> (r: Option<&mut Self>) {
        match src {
            AnyPacket::AsciiTextMessage(p) => Some(p),
            _ => None,
        }
    }
}

impl From<UnicodeTextMessage> for AnyPacket {
    fn from(packet: UnicodeTextMessage) -> (r: AnyPacket) {
        AnyPacket::UnicodeTextMessage(packet)
    }
}

impl vstd::std_specs::convert::FromSpecImpl<UnicodeTextMessage> for AnyPacket {
    open spec fn obeys_from_spec() -> bool {
        true
    }

    open spec fn from_spec(packet: UnicodeTextMessage) -> AnyPacket {
        AnyPacket::UnicodeTextMessage(packet)
    }
}

impl IntoAnyPacket for UnicodeTextMessage {
    open spec fn spec_converts_to(&self, p: AnyPacket) -> bool {
        p == AnyPacket::UnicodeTextMessage(*self)
    }

    fn into_any(self) -> (r: AnyPacket) {
        AnyPacket::UnicodeTextMessage(self)
    }
}

impl AnyDowncast for UnicodeTextMessage {
    open spec fn spec_as_any(self) -> AnyPacket {
        AnyPacket::UnicodeTextMessage(self)
    }

    open spec fn spec_is_held(src: AnyPacket) -> bool {
        src is UnicodeTextMessage
    }

    fn downcast(src: AnyPacket) -> (r: Result<Self, AnyPacket>) {
        match src {
            AnyPacket::UnicodeTextMessage(p) => Ok(p),
            v => Err(v),
        }
    }

    fn downcast_ref(src: &AnyPacket) -> (r: Option<&Self>) {
        match src {
            AnyPacket::UnicodeTextMessage(p) => Some(p),
            _ => None,
        }
    }

    fn downcast_mut(src: &mut AnyPacket) -> (r: Option<&mut Self>) {
        match src {
            AnyPacket::UnicodeTextMessage(p) => Some(p),
            _ => None,
        }
    }
}

impl From<LocalisedTextMessage> for AnyPacket {
    fn from(packet: LocalisedTextMessage) -> (r: AnyPacket) {
        AnyPacket::LocalisedTextMessage(packet)
    }
}

impl vstd::std_specs::convert::FromSpecImpl<LocalisedTextMessage> for AnyPacket {
    open spec fn obeys_from_spec() -> bool {
        true
    }

    open spec fn from_spec(packet: LocalisedTextMessage) -> AnyPacket {
        AnyPacket::LocalisedTextMessage(packet)
    }
}

impl IntoAnyPacket for LocalisedTextMessage {
    open spec fn spec_converts_to(&self, p: AnyPacket) -> bool {
        p == AnyPacket::LocalisedTextMessage(*self)
    }

    fn into_any(self) -> (r: AnyPacket) {
        AnyPacket::LocalisedTextMessage(self)
    }
}

impl AnyDowncast for LocalisedTextMessage {
    open spec fn spec_as_any(self) -> AnyPacket {
        AnyPacket::LocalisedTextMessage(self)
    }

    open spec fn spec_is_held(src: AnyPacket) -> bool {
        src is LocalisedTextMessage
    }

    fn downcast(src: AnyPacket) -> (r: Result<Self, AnyPacket>) {
        match src {
            AnyPacket::LocalisedTextMessage(p) => Ok(p),
            v => Err(v),
        }
    }

    fn downcast_ref(src: &AnyPacket) -> (r: Option<&Self>) {
        match src {
            AnyPacket::LocalisedTextMessage(p) => Some(p),
            _ => None,
        }
    }

    fn downcast_mut(src: &mut AnyPacket) -> (r: Option<&mut Self>) {
        match src {
            AnyPacket::LocalisedTextMessage(p) => Some(p),
            _ => None,
        }
    }
}

impl From<AsciiTextMessageRequest> for AnyPacket {
    fn from(packet: AsciiTextMessageRequest) -> (r: AnyPacket) {
        AnyPacket::AsciiTextMessageRequest(packet)
    }
}

impl vstd::std_specs::convert::FromSpecImpl<AsciiTextMessageRequest> for AnyPacket {
    open spec fn obeys_from_spec() -> bool {
        true
    }

    open spec fn from_spec(packet: AsciiTextMessageRequest) -> AnyPacket {
        AnyPacket::AsciiTextMessageRequest(packet)
    }
}

impl IntoAnyPacket for AsciiTextMessageRequest {
    open spec fn spec_converts_to(&self, p: AnyPacket) -> bool {
        p == AnyPacket::AsciiTextMessageRequest(*self)
    }

    fn into_any(self) -> (r: AnyPacket) {
        AnyPacket::AsciiTextMessageRequest(self)
    }
}

impl AnyDowncast for AsciiTextMessageRequest {
    open spec fn spec_as_any(self) -> AnyPacket {
        AnyPacket::AsciiTextMessageRequest(self)
    }

    open spec fn spec_is_held(src: AnyPacket) -> bool {
        src is AsciiTextMessageRequest
    }

    fn downcast(src: AnyPacket) -> (r: Result<Self, AnyPacket>) {
        match src {
            AnyPacket::AsciiTextMessageRequest(p) => Ok(p),
            v => Err(v),
        }
    }

    fn downcast_ref(src: &AnyPacket) -> (r: Option<&Self>) {
        match src {
            AnyPacket::AsciiTextMessageRequest(p) => Some(p),
            _ => None,
        }
    }

    fn downcast_mut(src: &mut AnyPacket) -> (r: Option<&mut Self>) {
        match src {
            AnyPacket::AsciiTextMessageRequest(p) => Some(p),
            _ => None,
        }
    }
}

impl From<UnicodeTextMessageRequest> for AnyPacket {
    fn from(packet: UnicodeTextMessageRequest) -> (r: AnyPacket) {
        AnyPacket::UnicodeTextMessageRequest(packet)
    }
}

impl vstd::std_specs::convert::FromSpecImpl<UnicodeTextMessageRequest> for AnyPacket {
    open spec fn obeys_from_spec() -> bool {
        true
    }

    open spec fn from_spec(packet: UnicodeTextMessageRequest) -> AnyPacket {
        AnyPacket::UnicodeTextMessageRequest(packet)
    }
}

impl IntoAnyPacket for UnicodeTextMessageRequest {
    open spec fn spec_converts_to(&self, p: AnyPacket) -> bool {
        p == AnyPacket::UnicodeTextMessageRequest(*self)
    }

    fn into_any(self) -> (r: AnyPacket) {
        AnyPacket::UnicodeTextMessageRequest(self)
    }
}

impl AnyDowncast for UnicodeTextMessageRequest {
    open spec fn spec_as_any(self) -> AnyPacket {
        AnyPacket::UnicodeTextMessageRequest(self)
    }

    open spec fn spec_is_held(src: AnyPacket) -> bool {
        src is UnicodeTextMessageRequest
    }

    fn downcast(src: AnyPacket) -> (r: Result<Self, AnyPacket>) {
        match src {
            AnyPacket::UnicodeTextMessageRequest(p) => Ok(p),
            v => Err(v),
        }
    }

    fn downcast_ref(src: &AnyPacket) -> (r: Option<&Self>) {
        match src {
            AnyPacket::UnicodeTextMessageRequest(p) => Some(p),
            _ => None,
        }
    }

    fn downcast_mut(src: &mut AnyPacket) -> (r: Option<&mut Self>) {
        match src {
            AnyPacket::UnicodeTextMessageRequest(p) => Some(p),
            _ => None,
        }
    }
}

impl From<PlayMusic> for AnyPacket {
    fn from(packet: PlayMusic) -> (r: AnyPacket) {
        AnyPacket::PlayMusic(packet)
    }
}

impl vstd::std_specs::convert::FromSpecImpl<PlayMusic> for AnyPacket {
    open spec fn obeys_from_spec() -> bool {
        true
    }

    open spec fn from_spec(packet: PlayMusic) -> AnyPacket {
        AnyPacket::PlayMusic(packet)
    }
}

impl IntoAnyPacket for PlayMusic {
    open spec fn spec_converts_to(&self, p: AnyPacket) -> bool {
        p == AnyPacket::PlayMusic(*self)
    }

    fn into_any(self) -> (r: AnyPacket) {
        AnyPacket::PlayMusic(self)
    }
}

impl AnyDowncast for PlayMusic {
    open spec fn spec_as_any(self) -> AnyPacket {
        AnyPacket::PlayMusic(self)
    }

    open spec fn spec_is_held(src: AnyPacket) -> bool {
        src is PlayMusic
    }

    fn downcast(src: AnyPacket) -> (r: Result<Self, AnyPacket>) {
        match src {
            AnyPacket::PlayMusic(p) => Ok(p),
            v => Err(v),
        }
    }

    fn downcast_ref(src: &AnyPacket) -> (r: Option<&Self>) {
        match src {
            AnyPacket::PlayMusic(p) => Some(p),
            _ => None,
        }
    }

    fn downcast_mut(src: &mut AnyPacket) -> (r: Option<&mut Self>) {
        match src {
            AnyPacket::PlayMusic(p) => Some(p),
            _ => None,
        }
    }
}

impl From<PlaySoundEffect> for AnyPacket {
    fn from(packet: PlaySoundEffect) -> (r: AnyPacket) {
        AnyPacket::PlaySoundEffect(packet)
    }
}

impl vstd::std_specs::convert::FromSpecImpl<PlaySoundEffect> for AnyPacket {
    open spec fn obeys_from_spec() -> bool {
        true
    }

    open spec fn from_spec(packet: PlaySoundEffect) -> AnyPacket {
        AnyPacket::PlaySoundEffect(packet)
    }
}

impl IntoAnyPacket for PlaySoundEffect {
    open spec fn spec_converts_to(&self, p: AnyPacket) -> bool {
        p == AnyPacket::PlaySoundEffect(*self)
    }

    fn into_any(self) -> (r: AnyPacket) {
        AnyPacket::PlaySoundEffect(self)
    }
}

impl AnyDowncast for PlaySoundEffect {
    open spec fn spec_as_any(self) -> AnyPacket {
        AnyPacket::PlaySoundEffect(self)
    }

    open spec fn spec_is_held(src: AnyPacket) -> bool {
        src is PlaySoundEffect
    }

    fn downcast(src: AnyPacket) -> (r: Result<Self, AnyPacket>) {
        match src {
            AnyPacket::PlaySoundEffect(p) => Ok(p),
            v => Err(v),
        }
    }

    fn downcast_ref(src: &AnyPacket) -> (r: Option<&Self>) {
        match src {
            AnyPacket::PlaySoundEffect(p) => Some(p),
            _ => None,
        }
    }

    fn downcast_mut(src: &mut AnyPacket) -> (r: Option<&mut Self>) {
        match src {
            AnyPacket::PlaySoundEffect(p) => Some(p),
            _ => None,
        }
    }
}

impl From<SetTime> for AnyPacket {
    fn from(packet: SetTime) -> (r: AnyPacket) {
        AnyPacket::SetTime(packet)
    }
}

impl vstd::std_specs::convert::FromSpecImpl<SetTime> for AnyPacket {
    open spec fn obeys_from_spec() -> bool {
        true
    }

    open spec fn from_spec(packet: SetTime) -> AnyPacket {
        AnyPacket::SetTime(packet)
    }
}

impl IntoAnyPacket for SetTime {
    open spec fn spec_converts_to(&self, p: AnyPacket) -> bool {
        p == AnyPacket::SetTime(*self)
    }

    fn into_any(self) -> (r: AnyPacket) {
        AnyPacket::SetTime(self)
    }
}

impl AnyDowncast for SetTime {
    open spec fn spec_as_any(self) -> AnyPacket {
        AnyPacket::SetTime(self)
    }

    open spec fn spec_is_held(src: AnyPacket) -> bool {
        src is SetTime
    }

    fn downcast(src: AnyPacket) -> (r: Result<Self, AnyPacket>) {
        match src {
            AnyPacket::SetTime(p) => Ok(p),
            v => Err(v),
        }
    }

    fn downcast_ref(src: &AnyPacket) -> (r: Option<&Self>) {
        match src {
            AnyPacket::SetTime(p) => Some(p),
            _ => None,
        }
    }

    fn downcast_mut(src: &mut AnyPacket) -> (r: Option<&mut Self>) {
        match src {
            AnyPacket::SetTime(p) => Some(p),
            _ => None,
        }
    }
}

impl From<ChangeSeason> for AnyPacket {
    fn from(packet: ChangeSeason) -> (r: AnyPacket) {
        AnyPacket::ChangeSeason(packet)
    }
}

impl vstd::std_specs::convert::FromSpecImpl<ChangeSeason> for AnyPacket {
    open spec fn obeys_from_spec() -> bool {
        true
    }

    open spec fn from_spec(packet: ChangeSeason) -> AnyPacket {
        AnyPacket::ChangeSeason(packet)
    }
}

impl IntoAnyPacket for ChangeSeason {
    open spec fn spec_converts_to(&self, p: AnyPacket) -> bool {
        p == AnyPacket::ChangeSeason(*self)
    }

    fn into_any(self) -> (r: AnyPacket) {
        AnyPacket::ChangeSeason(self)
    }
}

impl AnyDowncast for ChangeSeason {
    open spec fn spec_as_any(self) -> AnyPacket {
        AnyPacket::ChangeSeason(self)
    }

    open spec fn spec_is_held(src: AnyPacket) -> bool {
        src is ChangeSeason
    }

    fn downcast(src: AnyPacket) -> (r: Result<Self, AnyPacket>) {
        match src {
            AnyPacket::ChangeSeason(p) => Ok(p),
            v => Err(v),
        }
    }

    fn downcast_ref(src: &AnyPacket) -> (r: Option<&Self>) {
        match src {
            AnyPacket::ChangeSeason(p) => Some(p),
            _ => None,
        }
    }

    fn downcast_mut(src: &mut AnyPacket) -> (r: Option<&mut Self>) {
        match src {
            AnyPacket::ChangeSeason(p) => Some(p),
            _ => None,
        }
    }
}

impl From<ViewRange> for AnyPacket {
    fn from(packet: ViewRange) -> (r: AnyPacket) {
        AnyPacket::ViewRange(packet)
    }
}

impl vstd::std_specs::convert::FromSpecImpl<ViewRange> for AnyPacket {
    open spec fn obeys_from_spec() -> bool {
        true
    }

    open spec fn from_spec(packet: ViewRange) -> AnyPacket {
        AnyPacket::ViewRange(packet)
    }
}

impl IntoAnyPacket for ViewRange {
    open spec fn spec_converts_to(&self, p: AnyPacket) -> bool {
        p == AnyPacket::ViewRange(*self)
    }

    fn into_any(self) -> (r: AnyPacket) {
        AnyPacket::ViewRange(self)
    }
}

impl AnyDowncast for ViewRange {
    open spec fn spec_as_any(self) -> AnyPacket {
        AnyPacket::ViewRange(self)
    }

    open spec fn spec_is_held(src: AnyPacket) -> bool {
        src is ViewRange
    }

    fn downcast(src: AnyPacket) -> (r: Result<Self, AnyPacket>) {
        match src {
            AnyPacket::ViewRange(p) => Ok(p),
            v => Err(v),
        }
    }

    fn downcast_ref(src: &AnyPacket) -> (r: Option<&Self>) {
        match src {
            AnyPacket::ViewRange(p) => Some(p),
            _ => None,
        }
    }

    fn downcast_mut(src: &mut AnyPacket) -> (r: Option<&mut Self>) {
        match src {
            AnyPacket::ViewRange(p) => Some(p),
            _ => None,
        }
    }
}

impl From<EntityRequest> for AnyPacket {
    fn from(packet: EntityRequest) -> (r: AnyPacket) {
        AnyPacket::EntityRequest(packet)
    }
}

impl vstd::std_specs::convert::FromSpecImpl<EntityRequest> for AnyPacket {
    open spec fn obeys_from_spec() -> bool {
        true
    }

    open spec fn from_spec(packet: EntityRequest) -> AnyPacket {
        AnyPacket::EntityRequest(packet)
    }
}

impl IntoAnyPacket for EntityRequest {
    open spec fn spec_converts_to(&self, p: AnyPacket) -> bool {
        p == AnyPacket::EntityRequest(*self)
    }

    fn into_any(self) -> (r: AnyPacket) {
        AnyPacket::EntityRequest(self)
    }
}

impl AnyDowncast for EntityRequest {
    open spec fn spec_as_any(self) -> AnyPacket {
        AnyPacket::EntityRequest(self)
    }

    open spec fn spec_is_held(src: AnyPacket) -> bool {
        src is EntityRequest
    }

    fn downcast(src: AnyPacket) -> (r: Result<Self, AnyPacket>) {
        match src {
            AnyPacket::EntityRequest(p) => Ok(p),
            v => Err(v),
        }
    }

    fn downcast_ref(src: &AnyPacket) -> (r: Option<&Self>) {
        match src {
            AnyPacket::EntityRequest(p) => Some(p),
            _ => None,
        }
    }

    fn downcast_mut(src: &mut AnyPacket) -> (r: Option<&mut Self>) {
        match src {
            AnyPacket::EntityRequest(p) => Some(p),
            _ => None,
        }
    }
}

impl From<UpsertEntityLegacy> for AnyPacket {
    fn from(packet: UpsertEntityLegacy) -> (r: AnyPacket) {
        AnyPacket::UpsertEntityLegacy(packet)
    }
}

impl vstd::std_specs::convert::FromSpecImpl<UpsertEntityLegacy> for AnyPacket {
    open spec fn obeys_from_spec() -> bool {
        true
    }

    open spec fn from_spec(packet: UpsertEntityLegacy) -> AnyPacket {
        AnyPacket::UpsertEntityLegacy(packet)
    }
}

impl IntoAnyPacket for UpsertEntityLegacy {
    open spec fn spec_converts_to(&self, p: AnyPacket) -> bool {
        p == AnyPacket::UpsertEntityLegacy(*self)
    }

    fn into_any(self) -> (r: AnyPacket) {
        AnyPacket::UpsertEntityLegacy(self)
    }
}

impl AnyDowncast for UpsertEntityLegacy {
    open spec fn spec_as_any(self) -> AnyPacket {
        AnyPacket::UpsertEntityLegacy(self)
    }

    open spec fn spec_is_held(src: AnyPacket) -> bool {
        src is UpsertEntityLegacy
    }

    fn downcast(src: AnyPacket) -> (r: Result<Self, AnyPacket>) {
        match src {
            AnyPacket::UpsertEntityLegacy(p) => Ok(p),
            v => Err(v),
        }
    }

    fn downcast_ref(src: &AnyPacket) -> (r: Option<&Self>) {
        match src {
            AnyPacket::UpsertEntityLegacy(p) => Some(p),
            _ => None,
        }
    }

    fn downcast_mut(src: &mut AnyPacket) -> (r: Option<&mut Self>) {
        match src {
            AnyPacket::UpsertEntityLegacy(p) => Some(p),
            _ => None,
        }
    }
}

impl From<UpsertEntityWorld> for AnyPacket {
    fn from(packet: UpsertEntityWorld) -> (r: AnyPacket) {
        AnyPacket::UpsertEntityWorld(packet)
    }
}

impl vstd::std_specs::convert::FromSpecImpl<UpsertEntityWorld> for AnyPacket {
    open spec fn obeys_from_spec() -> bool {
        true
    }

    open spec fn from_spec(packet: UpsertEntityWorld) -> AnyPacket {
        AnyPacket::UpsertEntityWorld(packet)
    }
}

impl IntoAnyPacket for UpsertEntityWorld {
    open spec fn spec_converts_to(&self, p: AnyPacket) -> bool {
        p == AnyPacket::UpsertEntityWorld(*self)
    }

    fn into_any(self) -> (r: AnyPacket) {
        AnyPacket::UpsertEntityWorld(self)
    }
}

impl AnyDowncast for UpsertEntityWorld {
    open spec fn spec_as_any(self) -> AnyPacket {
        AnyPacket::UpsertEntityWorld(self)
    }

    open spec fn spec_is_held(src: AnyPacket) -> bool {
        src is UpsertEntityWorld
    }

    fn downcast(src: AnyPacket) -> (r: Result<Self, AnyPacket>) {
        match src {
            AnyPacket::UpsertEntityWorld(p) => Ok(p),
            v => Err(v),
        }
    }

    fn downcast_ref(src: &AnyPacket) -> (r: Option<&Self>) {
        match src {
            AnyPacket::UpsertEntityWorld(p) => Some(p),
            _ => None,
        }
    }

    fn downcast_mut(src: &mut AnyPacket) -> (r: Option<&mut Self>) {
        match src {
            AnyPacket::UpsertEntityWorld(p) => Some(p),
            _ => None,
        }
    }
}

impl From<DeleteEntity> for AnyPacket {
    fn from(packet: DeleteEntity) -> (r: AnyPacket) {
        AnyPacket::DeleteEntity(packet)
    }
}

impl vstd::std_specs::convert::FromSpecImpl<DeleteEntity> for AnyPacket {
    open spec fn obeys_from_spec() -> bool {
        true
    }

    open spec fn from_spec(packet: DeleteEntity) -> AnyPacket {
        AnyPacket::DeleteEntity(packet)
    }
}

impl IntoAnyPacket for DeleteEntity {
    open spec fn spec_converts_to(&self, p: AnyPacket) -> bool {
        p == AnyPacket::DeleteEntity(*self)
    }

    fn into_any(self) -> (r: AnyPacket) {
        AnyPacket::DeleteEntity(self)
    }
}

impl AnyDowncast for DeleteEntity {
    open spec fn spec_as_any(self) -> AnyPacket {
        AnyPacket::DeleteEntity(self)
    }

    open spec fn spec_is_held(src: AnyPacket) -> bool {
        src is DeleteEntity
    }

    fn downcast(src: AnyPacket) -> (r: Result<Self, AnyPacket>) {
        match src {
            AnyPacket::DeleteEntity(p) => Ok(p),
            v => Err(v),
        }
    }

    fn downcast_ref(src: &AnyPacket) -> (r: Option<&Self>) {
        match src {
            AnyPacket::DeleteEntity(p) => Some(p),
            _ => None,
        }
    }

    fn downcast_mut(src: &mut AnyPacket) -> (r: Option<&mut Self>) {
        match src {
            AnyPacket::DeleteEntity(p) => Some(p),
            _ => None,
        }
    }
}

impl From<UpsertLocalPlayer> for AnyPacket {
    fn from(packet: UpsertLocalPlayer) -> (r: AnyPacket) {
        AnyPacket::UpsertLocalPlayer(packet)
    }
}

impl vstd::std_specs::convert::FromSpecImpl<UpsertLocalPlayer> for AnyPacket {
    open spec fn obeys_from_spec() -> bool {
        true
    }

    open spec fn from_spec(packet: UpsertLocalPlayer) -> AnyPacket {
        AnyPacket::UpsertLocalPlayer(packet)
    }
}

impl IntoAnyPacket for UpsertLocalPlayer {
    open spec fn spec_converts_to(&self, p: AnyPacket) -> bool {
        p == AnyPacket::UpsertLocalPlayer(*self)
    }

    fn into_any(self) -> (r: AnyPacket) {
        AnyPacket::UpsertLocalPlayer(self)
    }
}

impl AnyDowncast for UpsertLocalPlayer {
    open spec fn spec_as_any(self) -> AnyPacket {
        AnyPacket::UpsertLocalPlayer(self)
    }

    open spec fn spec_is_held(src: AnyPacket) -> bool {
        src is UpsertLocalPlayer
    }

    fn downcast(src: AnyPacket) -> (r: Result<Self, AnyPacket>) {
        match src {
            AnyPacket::UpsertLocalPlayer(p) => Ok(p),
            v => Err(v),
        }
    }

    fn downcast_ref(src: &AnyPacket) -> (r: Option<&Self>) {
        match src {
            AnyPacket::UpsertLocalPlayer(p) => Some(p),
            _ => None,
        }
    }

    fn downcast_mut(src: &mut AnyPacket) -> (r: Option<&mut Self>) {
        match src {
            AnyPacket::UpsertLocalPlayer(p) => Some(p),
            _ => None,
        }
    }
}

impl From<UpsertEntityCharacter> for AnyPacket {
    fn from(packet: UpsertEntityCharacter) -> (r: AnyPacket) {
        AnyPacket::UpsertEntityCharacter(packet)
    }
}

impl vstd::std_specs::convert::FromSpecImpl<UpsertEntityCharacter> for AnyPacket {
    open spec fn obeys_from_spec() -> bool {
        true
    }

    open spec fn from_spec(packet: UpsertEntityCharacter) -> AnyPacket {
        AnyPacket::UpsertEntityCharacter(packet)
    }
}

impl IntoAnyPacket for UpsertEntityCharacter {
    open spec fn spec_converts_to(&self, p: AnyPacket) -> bool {
        p == AnyPacket::UpsertEntityCharacter(*self)
    }

    fn into_any(self) -> (r: AnyPacket) {
        AnyPacket::UpsertEntityCharacter(self)
    }
}

impl AnyDowncast for UpsertEntityCharacter {
    open spec fn spec_as_any(self) -> AnyPacket {
        AnyPacket::UpsertEntityCharacter(self)
    }

    open spec fn spec_is_held(src: AnyPacket) -> bool {
        src is UpsertEntityCharacter
    }

    fn downcast(src: AnyPacket) -> (r: Result<Self, AnyPacket>) {
        match src {
            AnyPacket::UpsertEntityCharacter(p) => Ok(p),
            v => Err(v),
        }
    }

    fn downcast_ref(src: &AnyPacket) -> (r: Option<&Self>) {
        match src {
            AnyPacket::UpsertEntityCharacter(p) => Some(p),
            _ => None,
        }
    }

    fn downcast_mut(src: &mut AnyPacket) -> (r: Option<&mut Self>) {
        match src {
            AnyPacket::UpsertEntityCharacter(p) => Some(p),
            _ => None,
        }
    }
}

impl From<UpsertEntityEquipped> for AnyPacket {
    fn from(packet: UpsertEntityEquipped) -> (r: AnyPacket) {
        AnyPacket::UpsertEntityEquipped(packet)
    }
}

impl vstd::std_specs::convert::FromSpecImpl<UpsertEntityEquipped> for AnyPacket {
    open spec fn obeys_from_spec() -> bool {
        true
    }

    open spec fn from_spec(packet: UpsertEntityEquipped) -> AnyPacket {
        AnyPacket::UpsertEntityEquipped(packet)
    }
}

impl IntoAnyPacket for UpsertEntityEquipped {
    open spec fn spec_converts_to(&self, p: AnyPacket) -> bool {
        p == AnyPacket::UpsertEntityEquipped(*self)
    }

    fn into_any(self) -> (r: AnyPacket) {
        AnyPacket::UpsertEntityEquipped(self)
    }
}

impl AnyDowncast for UpsertEntityEquipped {
    open spec fn spec_as_any(self) -> AnyPacket {
        AnyPacket::UpsertEntityEquipped(self)
    }

    open spec fn spec_is_held(src: AnyPacket) -> bool {
        src is UpsertEntityEquipped
    }

    fn downcast(src: AnyPacket) -> (r: Result<Self, AnyPacket>) {
        match src {
            AnyPacket::UpsertEntityEquipped(p) => Ok(p),
            v => Err(v),
        }
    }

    fn downcast_ref(src: &AnyPacket) -> (r: Option<&Self>) {
        match src {
            AnyPacket::UpsertEntityEquipped(p) => Some(p),
            _ => None,
        }
    }

    fn downcast_mut(src: &mut AnyPacket) -> (r: Option<&mut Self>) {
        match src {
            AnyPacket::UpsertEntityEquipped(p) => Some(p),
            _ => None,
        }
    }
}

impl From<UpsertEntityContained> for AnyPacket {
    fn from(packet: UpsertEntityContained) -> (r: AnyPacket) {
        AnyPacket::UpsertEntityContained(packet)
    }
}

impl vstd::std_specs::convert::FromSpecImpl<UpsertEntityContained> for AnyPacket {
    open spec fn obeys_from_spec() -> bool {
        true
    }

    open spec fn from_spec(packet: UpsertEntityContained) -> AnyPacket {
        AnyPacket::UpsertEntityContained(packet)
    }
}

impl IntoAnyPacket for UpsertEntityContained {
    open spec fn spec_converts_to(&self, p: AnyPacket) -> bool {
        p == AnyPacket::UpsertEntityContained(*self)
    }

    fn into_any(self) -> (r: AnyPacket) {
        AnyPacket::UpsertEntityContained(self)
    }
}

impl AnyDowncast for UpsertEntityContained {
    open spec fn spec_as_any(self) -> AnyPacket {
        AnyPacket::UpsertEntityContained(self)
    }

    open spec fn spec_is_held(src: AnyPacket) -> bool {
        src is UpsertEntityContained
    }

    fn downcast(src: AnyPacket) -> (r: Result<Self, AnyPacket>) {
        match src {
            AnyPacket::UpsertEntityContained(p) => Ok(p),
            v => Err(v),
        }
    }

    fn downcast_ref(src: &AnyPacket) -> (r: Option<&Self>) {
        match src {
            AnyPacket::UpsertEntityContained(p) => Some(p),
            _ => None,
        }
    }

    fn downcast_mut(src: &mut AnyPacket) -> (r: Option<&mut Self>) {
        match src {
            AnyPacket::UpsertEntityContained(p) => Some(p),
            _ => None,
        }
    }
}

impl From<UpsertContainerContents> for AnyPacket {
    fn from(packet: UpsertContainerContents) -> (r: AnyPacket) {
        AnyPacket::UpsertContainerContents(packet)
    }
}

impl vstd::std_specs::convert::FromSpecImpl<UpsertContainerContents> for AnyPacket {
    open spec fn obeys_from_spec() -> bool {
        true
    }

    open spec fn from_spec(packet: UpsertContainerContents) -> AnyPacket {
        AnyPacket::UpsertContainerContents(packet)
    }
}

impl IntoAnyPacket for UpsertContainerContents {
    open spec fn spec_converts_to(&self, p: AnyPacket) -> bool {
        p == AnyPacket::UpsertContainerContents(*self)
    }

    fn into_any(self) -> (r: AnyPacket) {
        AnyPacket::UpsertContainerContents(self)
    }
}

impl AnyDowncast for UpsertContainerContents {
    open spec fn spec_as_any(self) -> AnyPacket {
        AnyPacket::UpsertContainerContents(self)
    }

    open spec fn spec_is_held(src: AnyPacket) -> bool {
        src is UpsertContainerContents
    }

    fn downcast(src: AnyPacket) -> (r: Result<Self, AnyPacket>) {
        match src {
            AnyPacket::UpsertContainerContents(p) => Ok(p),
            v => Err(v),
        }
    }

    fn downcast_ref(src: &AnyPacket) -> (r: Option<&Self>) {
        match src {
            AnyPacket::UpsertContainerContents(p) => Some(p),
            _ => None,
        }
    }

    fn downcast_mut(src: &mut AnyPacket) -> (r: Option<&mut Self>) {
        match src {
            AnyPacket::UpsertContainerContents(p) => Some(p),
            _ => None,
        }
    }
}

impl From<EntityTooltipVersion> for AnyPacket {
    fn from(packet: EntityTooltipVersion) -> (r: AnyPacket) {
        AnyPacket::EntityTooltipVersion(packet)
    }
}

impl vstd::std_specs::convert::FromSpecImpl<EntityTooltipVersion> for AnyPacket {
    open spec fn obeys_from_spec() -> bool {
        true
    }

    open spec fn from_spec(packet: EntityTooltipVersion) -> AnyPacket {
        AnyPacket::EntityTooltipVersion(packet)
    }
}

impl IntoAnyPacket for EntityTooltipVersion {
    open spec fn spec_converts_to(&self, p: AnyPacket) -> bool {
        p == AnyPacket::EntityTooltipVersion(*self)
    }

    fn into_any(self) -> (r: AnyPacket) {
        AnyPacket::EntityTooltipVersion(self)
    }
}

impl AnyDowncast for EntityTooltipVersion {
    open spec fn spec_as_any(self) -> AnyPacket {
        AnyPacket::EntityTooltipVersion(self)
    }

    open spec fn spec_is_held(src: AnyPacket) -> bool {
        src is EntityTooltipVersion
    }

    fn downcast(src: AnyPacket) -> (r: Result<Self, AnyPacket>) {
        match src {
            AnyPacket::EntityTooltipVersion(p) => Ok(p),
            v => Err(v),
        }
    }

    fn downcast_ref(src: &AnyPacket) -> (r: Option<&Self>) {
        match src {
            AnyPacket::EntityTooltipVersion(p) => Some(p),
            _ => None,
        }
    }

    fn downcast_mut(src: &mut AnyPacket) -> (r: Option<&mut Self>) {
        match src {
            AnyPacket::EntityTooltipVersion(p) => Some(p),
            _ => None,
        }
    }
}

impl From<EntityTooltip> for AnyPacket {
    fn from(packet: EntityTooltip) -> (r: AnyPacket) {
        AnyPacket::EntityTooltip(packet)
    }
}

impl vstd::std_specs::convert::FromSpecImpl<EntityTooltip> for AnyPacket {
    open spec fn obeys_from_spec() -> bool {
        true
    }

    open spec fn from_spec(packet: EntityTooltip) -> AnyPacket {
        AnyPacket::EntityTooltip(packet)
    }
}

impl IntoAnyPacket for EntityTooltip {
    open spec fn spec_converts_to(&self, p: AnyPacket) -> bool {
        p == AnyPacket::EntityTooltip(*self)
    }

    fn into_any(self) -> (r: AnyPacket) {
        AnyPacket::EntityTooltip(self)
    }
}

impl AnyDowncast for EntityTooltip {
    open spec fn spec_as_any(self) -> AnyPacket {
        AnyPacket::EntityTooltip(self)
    }

    open spec fn spec_is_held(src: AnyPacket) -> bool {
        src is EntityTooltip
    }

    fn downcast(src: AnyPacket) -> (r: Result<Self, AnyPacket>) {
        match src {
            AnyPacket::EntityTooltip(p) => Ok(p),
            v => Err(v),
        }
    }

    fn downcast_ref(src: &AnyPacket) -> (r: Option<&Self>) {
        match src {
            AnyPacket::EntityTooltip(p) => Some(p),
            _ => None,
        }
    }

    fn downcast_mut(src: &mut AnyPacket) -> (r: Option<&mut Self>) {
        match src {
            AnyPacket::EntityTooltip(p) => Some(p),
            _ => None,
        }
    }
}

impl From<UpsertEntityStats> for AnyPacket {
    fn from(packet: UpsertEntityStats) -> (r: AnyPacket) {
        AnyPacket::UpsertEntityStats(packet)
    }
}

impl vstd::std_specs::convert::FromSpecImpl<UpsertEntityStats> for AnyPacket {
    open spec fn obeys_from_spec() -> bool {
        true
    }

    open spec fn from_spec(packet: UpsertEntityStats) -> AnyPacket {
        AnyPacket::UpsertEntityStats(packet)
    }
}

impl IntoAnyPacket for UpsertEntityStats {
    open spec fn spec_converts_to(&self, p: AnyPacket) -> bool {
        p == AnyPacket::UpsertEntityStats(*self)
    }

    fn into_any(self) -> (r: AnyPacket) {
        AnyPacket::UpsertEntityStats(self)
    }
}

impl AnyDowncast for UpsertEntityStats {
    open spec fn spec_as_any(self) -> AnyPacket {
        AnyPacket::UpsertEntityStats(self)
    }

    open spec fn spec_is_held(src: AnyPacket) -> bool {
        src is UpsertEntityStats
    }

    fn downcast(src: AnyPacket) -> (r: Result<Self, AnyPacket>) {
        match src {
            AnyPacket::UpsertEntityStats(p) => Ok(p),
            v => Err(v),
        }
    }

    fn downcast_ref(src: &AnyPacket) -> (r: Option<&Self>) {
        match src {
            AnyPacket::UpsertEntityStats(p) => Some(p),
            _ => None,
        }
    }

    fn downcast_mut(src: &mut AnyPacket) -> (r: Option<&mut Self>) {
        match src {
            AnyPacket::UpsertEntityStats(p) => Some(p),
            _ => None,
        }
    }
}

impl From<AttackRequest> for AnyPacket {
    fn from(packet: AttackRequest) -> (r: AnyPacket) {
        AnyPacket::AttackRequest(packet)
    }
}

impl vstd::std_specs::convert::FromSpecImpl<AttackRequest> for AnyPacket {
    open spec fn obeys_from_spec() -> bool {
        true
    }

    open spec fn from_spec(packet: AttackRequest) -> AnyPacket {
        AnyPacket::AttackRequest(packet)
    }
}

impl IntoAnyPacket for AttackRequest {
    open spec fn spec_converts_to(&self, p: AnyPacket) -> bool {
        p == AnyPacket::AttackRequest(*self)
    }

    fn into_any(self) -> (r: AnyPacket) {
        AnyPacket::AttackRequest(self)
    }
}

impl AnyDowncast for AttackRequest {
    open spec fn spec_as_any(self) -> AnyPacket {
        AnyPacket::AttackRequest(self)
    }

    open spec fn spec_is_held(src: AnyPacket) -> bool {
        src is AttackRequest
    }

    fn downcast(src: AnyPacket) -> (r: Result<Self, AnyPacket>) {
        match src {
            AnyPacket::AttackRequest(p) => Ok(p),
            v => Err(v),
        }
    }

    fn downcast_ref(src: &AnyPacket) -> (r: Option<&Self>) {
        match src {
            AnyPacket::AttackRequest(p) => Some(p),
            _ => None,
        }
    }

    fn downcast_mut(src: &mut AnyPacket) -> (r: Option<&mut Self>) {
        match src {
            AnyPacket::AttackRequest(p) => Some(p),
            _ => None,
        }
    }
}

impl From<SetAttackTarget> for AnyPacket {
    fn from(packet: SetAttackTarget) -> (r: AnyPacket) {
        AnyPacket::SetAttackTarget(packet)
    }
}

impl vstd::std_specs::convert::FromSpecImpl<SetAttackTarget> for AnyPacket {
    open spec fn obeys_from_spec() -> bool {
        true
    }

    open spec fn from_spec(packet: SetAttackTarget) -> AnyPacket {
        AnyPacket::SetAttackTarget(packet)
    }
}

impl IntoAnyPacket for SetAttackTarget {
    open spec fn spec_converts_to(&self, p: AnyPacket) -> bool {
        p == AnyPacket::SetAttackTarget(*self)
    }

    fn into_any(self) -> (r: AnyPacket) {
        AnyPacket::SetAttackTarget(self)
    }
}

impl AnyDowncast for SetAttackTarget {
    open spec fn spec_as_any(self) -> AnyPacket {
        AnyPacket::SetAttackTarget(self)
    }

    open spec fn spec_is_held(src: AnyPacket) -> bool {
        src is SetAttackTarget
    }

    fn downcast(src: AnyPacket) -> (r: Result<Self, AnyPacket>) {
        match src {
            AnyPacket::SetAttackTarget(p) => Ok(p),
            v => Err(v),
        }
    }

    fn downcast_ref(src: &AnyPacket) -> (r: Option<&Self>) {
        match src {
            AnyPacket::SetAttackTarget(p) => Some(p),
            _ => None,
        }
    }

    fn downcast_mut(src: &mut AnyPacket) -> (r: Option<&mut Self>) {
        match src {
            AnyPacket::SetAttackTarget(p) => Some(p),
            _ => None,
        }
    }
}

impl From<Swing> for AnyPacket {
    fn from(packet: Swing) -> (r: AnyPacket) {
        AnyPacket::Swing(packet)
    }
}

impl vstd::std_specs::convert::FromSpecImpl<Swing> for AnyPacket {
    open spec fn obeys_from_spec() -> bool {
        true
    }

    open spec fn from_spec(packet: Swing) -> AnyPacket {
        AnyPacket::Swing(packet)
    }
}

impl IntoAnyPacket for Swing {
    open spec fn spec_converts_to(&self, p: AnyPacket) -> bool {
        p == AnyPacket::Swing(*self)
    }

    fn into_any(self) -> (r: AnyPacket) {
        AnyPacket::Swing(self)
    }
}

impl AnyDowncast for Swing {
    open spec fn spec_as_any(self) -> AnyPacket {
        AnyPacket::Swing(self)
    }

    open spec fn spec_is_held(src: AnyPacket) -> bool {
        src is Swing
    }

    fn downcast(src: AnyPacket) -> (r: Result<Self, AnyPacket>) {
        match src {
            AnyPacket::Swing(p) => Ok(p),
            v => Err(v),
        }
    }

    fn downcast_ref(src: &AnyPacket) -> (r: Option<&Self>) {
        match src {
            AnyPacket::Swing(p) => Some(p),
            _ => None,
        }
    }

    fn downcast_mut(src: &mut AnyPacket) -> (r: Option<&mut Self>) {
        match src {
            AnyPacket::Swing(p) => Some(p),
            _ => None,
        }
    }
}

impl From<CharacterAnimation> for AnyPacket {
    fn from(packet: CharacterAnimation) -> (r: AnyPacket) {
        AnyPacket::CharacterAnimation(packet)
    }
}

impl vstd::std_specs::convert::FromSpecImpl<CharacterAnimation> for AnyPacket {
    open spec fn obeys_from_spec() -> bool {
        true
    }

    open spec fn from_spec(packet: CharacterAnimation) -> AnyPacket {
        AnyPacket::CharacterAnimation(packet)
    }
}

impl IntoAnyPacket for CharacterAnimation {
    open spec fn spec_converts_to(&self, p: AnyPacket) -> bool {
        p == AnyPacket::CharacterAnimation(*self)
    }

    fn into_any(self) -> (r: AnyPacket) {
        AnyPacket::CharacterAnimation(self)
    }
}

impl AnyDowncast for CharacterAnimation {
    open spec fn spec_as_any(self) -> AnyPacket {
        AnyPacket::CharacterAnimation(self)
    }

    open spec fn spec_is_held(src: AnyPacket) -> bool {
        src is CharacterAnimation
    }

    fn downcast(src: AnyPacket) -> (r: Result<Self, AnyPacket>) {
        match src {
            AnyPacket::CharacterAnimation(p) => Ok(p),
            v => Err(v),
        }
    }

    fn downcast_ref(src: &AnyPacket) -> (r: Option<&Self>) {
        match src {
            AnyPacket::CharacterAnimation(p) => Some(p),
            _ => None,
        }
    }

    fn downcast_mut(src: &mut AnyPacket) -> (r: Option<&mut Self>) {
        match src {
            AnyPacket::CharacterAnimation(p) => Some(p),
            _ => None,
        }
    }
}

impl From<CharacterPredefinedAnimation> for AnyPacket {
    fn from(packet: CharacterPredefinedAnimation) -> (r: AnyPacket) {
        AnyPacket::CharacterPredefinedAnimation(packet)
    }
}

impl vstd::std_specs::convert::FromSpecImpl<CharacterPredefinedAnimation> for AnyPacket {
    open spec fn obeys_from_spec() -> bool {
        true
    }

    open spec fn from_spec(packet: CharacterPredefinedAnimation) -> AnyPacket {
        AnyPacket::CharacterPredefinedAnimation(packet)
    }
}

impl IntoAnyPacket for CharacterPredefinedAnimation {
    open spec fn spec_converts_to(&self, p: AnyPacket) -> bool {
        p == AnyPacket::CharacterPredefinedAnimation(*self)
    }

    fn into_any(self) -> (r: AnyPacket) {
        AnyPacket::CharacterPredefinedAnimation(self)
    }
}

impl AnyDowncast for CharacterPredefinedAnimation {
    open spec fn spec_as_any(self) -> AnyPacket {
        AnyPacket::CharacterPredefinedAnimation(self)
    }

    open spec fn spec_is_held(src: AnyPacket) -> bool {
        src is CharacterPredefinedAnimation
    }

    fn downcast(src: AnyPacket) -> (r: Result<Self, AnyPacket>) {
        match src {
            AnyPacket::CharacterPredefinedAnimation(p) => Ok(p),
            v => Err(v),
        }
    }

    fn downcast_ref(src: &AnyPacket) -> (r: Option<&Self>) {
        match src {
            AnyPacket::CharacterPredefinedAnimation(p) => Some(p),
            _ => None,
        }
    }

    fn downcast_mut(src: &mut AnyPacket) -> (r: Option<&mut Self>) {
        match src {
            AnyPacket::CharacterPredefinedAnimation(p) => Some(p),
            _ => None,
        }
    }
}

} // verus!
