//! The extended command packet, which carries many small commands under
//! one packet kind, and the context menus among them.

use vstd::prelude::*;
use vstd::utf8::*;

use crate::protocol::format::{
    be_u16, be_u16_at, be_u32, be_u32_at, concat_map, lemma_be_u16_roundtrip, lemma_concat_map_fixed, lemma_be_u32_roundtrip,
    lemma_str_nul_roundtrip, no_nul_chars, str_nul_error, str_nul_text, u16_be, u32_be,
    PacketReadExt, PacketWriteExt,
};
use crate::protocol::{ClientFlags, ClientVersion, Packet, ProtocolError};
use crate::EntityId;

verus! {

broadcast use crate::lemma_entity_id_view_injective;

/// Closes a gump as if a button had been pressed.
#[derive(Debug, Clone, Copy)]
pub struct CloseGump {
    pub gump_id: u32,
    pub button_id: u32,
}

/// The size of the client's game window.
#[derive(Debug, Clone, Copy)]
pub struct ScreenSize {
    pub width: u32,
    pub height: u32,
}

/// The display flags of a context menu entry.
#[derive(Debug, Clone, Copy, Default, PartialEq, Eq, Structural)]
pub struct ContextMenuFlags {
    bits: u16,
}

impl View for ContextMenuFlags {
    type V = u16;

    closed spec fn view(&self) -> u16 {
        self.bits
    }
}

impl ContextMenuFlags {
    pub const DISABLED: u16 = 0x01;
    pub const ARROW: u16 = 0x02;
    pub const HIGHLIGHTED: u16 = 0x04;
    pub const HUE: u16 = 0x20;

    /// The union of all defined flags.
    pub open spec fn spec_all() -> u16 {
        0x27
    }

    /// The flags among `bits` that are defined; the others are dropped.
    pub fn from_bits_truncate(bits: u16) -> (r: ContextMenuFlags)
        ensures
            r@ == bits & ContextMenuFlags::spec_all(),
    {
        ContextMenuFlags { bits: bits & 0x27 }
    }

    pub fn bits(&self) -> (r: u16)
        ensures
            r == self@,
    {
        self.bits
    }

    pub fn contains(&self, flag: u16) -> (r: bool)
        ensures
            r == (self@ & flag == flag),
    {
        self.bits & flag == flag
    }

    /// The value holds only defined flags.
    pub open spec fn spec_is_truncated(&self) -> bool {
        self@ & ContextMenuFlags::spec_all() == self@
    }
}

/// Two flag sets with the same bits are the same.
pub broadcast proof fn lemma_context_menu_flags_view_injective(a: ContextMenuFlags, b: ContextMenuFlags)
    ensures
        #![trigger a@, b@]
        a@ == b@ ==> a == b,
{
}

/// One entry of a context menu.
#[derive(Debug, Clone, Copy)]
pub struct ContextMenuEntry {
    pub id: u16,
    pub text_id: u32,
    pub hue: Option<u16>,
    pub flags: ContextMenuFlags,
}

/// The entry list of a context menu, held inline up to sixteen entries.
#[verifier::external_body]
#[derive(Debug)]
pub struct ContextMenuEntries {
    inner: smallvec::SmallVec<[ContextMenuEntry; 16]>,
}

/// What a context menu's entry list holds, in order.
pub uninterp spec fn context_menu_items(v: ContextMenuEntries) -> Seq<ContextMenuEntry>;

/// An empty entry list: `smallvec::SmallVec::new`.
#[verifier::external_body]
fn context_menu_items_new() -> (r: ContextMenuEntries)
    ensures
        context_menu_items(r) == Seq::<ContextMenuEntry>::empty(),
{
    ContextMenuEntries { inner: smallvec::SmallVec::new() }
}

/// Appends an entry at the end: `smallvec::SmallVec::push`, which panics
/// only when the doubled capacity would overflow.
#[verifier::external_body]
fn context_menu_items_push(v: &mut ContextMenuEntries, e: ContextMenuEntry)
    requires
        context_menu_items(*old(v)).len() <= usize::MAX / 2,
    ensures
        context_menu_items(*final(v)) == context_menu_items(*old(v)).push(e),
{
    v.inner.push(e)
}

/// The entries, in order: `smallvec::SmallVec::as_slice`. A slice spans at
/// most `isize::MAX` bytes and an entry takes more than two, so there are
/// fewer than `usize::MAX / 2` of them.
#[verifier::external_body]
fn context_menu_items_slice(v: &ContextMenuEntries) -> (r: &[ContextMenuEntry])
    ensures
        r@ == context_menu_items(*v),
        r@.len() <= usize::MAX / 2,
{
    v.inner.as_slice()
}

impl Clone for ContextMenuEntries {
    /// A list with the same entries.
    fn clone(&self) -> (r: Self)
        ensures
            context_menu_items(r) == context_menu_items(*self),
    {
        let items = context_menu_items_slice(self);
        let mut out = context_menu_items_new();
        let mut i: usize = 0;
        while i < items.len()
            invariant
                i <= items@.len() <= usize::MAX / 2,
                context_menu_items(out) == items@.take(i as int),
            decreases items@.len() - i,
        {
            context_menu_items_push(&mut out, items[i]);
            i += 1;
            assert(context_menu_items(out) =~= items@.take(i as int));
        }
        assert(items@.take(items@.len() as int) =~= items@);
        out
    }
}

impl ContextMenuEntries {
    /// An empty list.
    pub fn new() -> (r: Self)
        ensures
            context_menu_items(r) == Seq::<ContextMenuEntry>::empty(),
    {
        context_menu_items_new()
    }

    /// Appends an entry at the end.
    pub fn push(&mut self, e: ContextMenuEntry)
        requires
            context_menu_items(*old(self)).len() <= usize::MAX / 2,
        ensures
            context_menu_items(*final(self)) == context_menu_items(*old(self)).push(e),
    {
        context_menu_items_push(self, e)
    }

    /// The entries, in order.
    pub fn as_slice(&self) -> (r: &[ContextMenuEntry])
        ensures
            r@ == context_menu_items(*self),
    {
        context_menu_items_slice(self)
    }
}

/// A context menu for an entity.
#[derive(Debug, Clone)]
pub struct ContextMenu {
    pub target_id: EntityId,
    pub entries: ContextMenuEntries,
}

/// The player's choice in a context menu.
#[derive(Debug, Clone, Copy)]
pub struct ContextMenuResponse {
    pub target_id: EntityId,
    pub id: u16,
}

/// The commands carried by the extended command packet.
#[derive(Debug, Clone)]
pub enum ExtendedCommand {
    Unknown(u16),
    CloseGump(CloseGump),
    ScreenSize(ScreenSize),
    ChangeMap(u8),
    Language(String),
    CloseStatusGump(u32),
    ClientType(ClientFlags),
    ContextMenuRequest(EntityId),
    ContextMenu(ContextMenu),
    ContextMenuEnhanced(ContextMenu),
    ContextMenuResponse(ContextMenuResponse),
}

pub const CLOSE_GUMP: u16 = 0x4;
pub const SCREEN_SIZE: u16 = 0x5;
pub const CHANGE_MAP: u16 = 0x8;
pub const LANGUAGE: u16 = 0xb;
pub const CLOSE_STATUS_GUMP: u16 = 0xc;
pub const CLIENT_TYPE: u16 = 0xf;
pub const CONTEXT_MENU_REQUEST: u16 = 0x13;
pub const CONTEXT_MENU: u16 = 0x14;
pub const CONTEXT_MENU_RESPONSE: u16 = 0x15;

/// Text numbers of the classic context menu count from here.
pub const CLASSIC_CONTEXT_MIN_TEXT_ID: u32 = 3000000;

/// The bytes of one classic context menu entry: the text number is written
/// relative to the first classic one, and the hue follows when there is one.
pub open spec fn classic_entry_wire(e: ContextMenuEntry) -> Seq<u8> {
    u16_be(e.id) + u16_be((e.text_id - CLASSIC_CONTEXT_MIN_TEXT_ID) as u16) + u16_be(e.flags@) + match e.hue {
        Some(h) => u16_be(h),
        None => Seq::empty(),
    }
}

/// The bytes of one enhanced context menu entry.
pub open spec fn enhanced_entry_wire(e: ContextMenuEntry) -> Seq<u8> {
    u32_be(e.text_id) + u16_be(e.id) + u16_be(e.flags@)
}

/// The bytes of classic context menu entries, one after the other.
pub open spec fn classic_entries_wire(es: Seq<ContextMenuEntry>) -> Seq<u8> {
    concat_map(es, |e: ContextMenuEntry| classic_entry_wire(e))
}

/// The bytes of enhanced context menu entries, one after the other.
pub open spec fn enhanced_entries_wire(es: Seq<ContextMenuEntry>) -> Seq<u8> {
    concat_map(es, |e: ContextMenuEntry| enhanced_entry_wire(e))
}

/// An entry as plain values: id, text number, hue, flag bits.
pub open spec fn entry_view(e: ContextMenuEntry) -> (u16, u32, Option<u16>, u16) {
    (e.id, e.text_id, e.hue, e.flags@)
}

/// The entries of a context menu as plain values.
pub open spec fn entries_view(v: ContextMenuEntries) -> Seq<(u16, u32, Option<u16>, u16)> {
    context_menu_items(v).map_values(|e: ContextMenuEntry| entry_view(e))
}

/// Reads `count` classic entries from `pos`: the entries and the position
/// after them, or `None` when the bytes run out. A hue follows the entries
/// whose flags have the hue bit.
pub open spec fn decode_classic_entries(s: Seq<u8>, pos: int, count: nat) -> Option<
    (Seq<(u16, u32, Option<u16>, u16)>, int),
>
    decreases count,
{
    if count == 0 {
        Some((Seq::empty(), pos))
    } else {
        match decode_classic_entries(s, pos, (count - 1) as nat) {
            None => None,
            Some((es, at)) => if at < 0 || s.len() < at + 6 {
                None
            } else {
                let flags = be_u16(s, at + 4) & ContextMenuFlags::spec_all();
                let has_hue = flags & ContextMenuFlags::HUE == ContextMenuFlags::HUE;
                if has_hue && s.len() < at + 8 {
                    None
                } else {
                    let e = (
                        be_u16(s, at),
                        (be_u16(s, at + 2) as u32 + CLASSIC_CONTEXT_MIN_TEXT_ID) as u32,
                        if has_hue {
                            Some(be_u16(s, at + 6))
                        } else {
                            None
                        },
                        flags,
                    );
                    Some((es.push(e), at + if has_hue { 8int } else { 6int }))
                }
            },
        }
    }
}

/// Once the bytes run out for some entries, they run out for more.
proof fn lemma_classic_none_grows(s: Seq<u8>, pos: int, k: nat, count: nat)
    requires
        k <= count,
        decode_classic_entries(s, pos, k) is None,
    ensures
        decode_classic_entries(s, pos, count) is None,
    decreases count - k,
{
    if k < count {
        lemma_classic_none_grows(s, pos, k, (count - 1) as nat);
    }
}

/// The enhanced entries at `pos`: eight bytes each.
pub open spec fn enhanced_entries_of(s: Seq<u8>, pos: int, count: nat) -> Seq<(u16, u32, Option<u16>, u16)> {
    Seq::new(
        count,
        |i: int|
            (
                be_u16(s, pos + 8 * i + 4),
                be_u32(s, pos + 8 * i),
                None::<u16>,
                be_u16(s, pos + 8 * i + 6) & ContextMenuFlags::spec_all(),
            ),
    )
}

/// Every entry's text number is one the classic layout can carry.
pub open spec fn classic_text_ids_fit(es: Seq<ContextMenuEntry>) -> bool {
    forall|i: int| 0 <= i < es.len() ==> #[trigger] es[i].text_id >= CLASSIC_CONTEXT_MIN_TEXT_ID
}

/// Where the first entry whose text number lies below the first classic one
/// stands, when there is such an entry.
pub open spec fn first_low_text_id(es: Seq<ContextMenuEntry>) -> int {
    choose|k: int|
        0 <= k < es.len() && es[k].text_id < CLASSIC_CONTEXT_MIN_TEXT_ID && forall|j: int|
            0 <= j < k ==> #[trigger] es[j].text_id >= CLASSIC_CONTEXT_MIN_TEXT_ID
}

impl ExtendedCommand {
    /// The command number of this command; none for an unknown command.
    pub open spec fn spec_kind(&self) -> Option<u16> {
        match self {
            ExtendedCommand::Unknown(_) => None,
            ExtendedCommand::CloseGump(_) => Some(CLOSE_GUMP),
            ExtendedCommand::ScreenSize(_) => Some(SCREEN_SIZE),
            ExtendedCommand::ChangeMap(_) => Some(CHANGE_MAP),
            ExtendedCommand::Language(_) => Some(LANGUAGE),
            ExtendedCommand::CloseStatusGump(_) => Some(CLOSE_STATUS_GUMP),
            ExtendedCommand::ClientType(_) => Some(CLIENT_TYPE),
            ExtendedCommand::ContextMenuRequest(_) => Some(CONTEXT_MENU_REQUEST),
            ExtendedCommand::ContextMenu(_) => Some(CONTEXT_MENU),
            ExtendedCommand::ContextMenuEnhanced(_) => Some(CONTEXT_MENU),
            ExtendedCommand::ContextMenuResponse(_) => Some(CONTEXT_MENU_RESPONSE),
        }
    }

    /// The command number of this command; an unknown command cannot be
    /// sent and has none.
    pub fn kind(&self) -> (r: u16)
        requires
            !(self is Unknown),
        ensures
            Some(r) == self.spec_kind(),
    {
        match self {
            ExtendedCommand::Unknown(_) => 0,
            ExtendedCommand::CloseGump(_) => CLOSE_GUMP,
            ExtendedCommand::ScreenSize(_) => SCREEN_SIZE,
            ExtendedCommand::ChangeMap(_) => CHANGE_MAP,
            ExtendedCommand::Language(_) => LANGUAGE,
            ExtendedCommand::CloseStatusGump(_) => CLOSE_STATUS_GUMP,
            ExtendedCommand::ClientType(_) => CLIENT_TYPE,
            ExtendedCommand::ContextMenuRequest(_) => CONTEXT_MENU_REQUEST,
            ExtendedCommand::ContextMenu(_) => CONTEXT_MENU,
            ExtendedCommand::ContextMenuEnhanced(_) => CONTEXT_MENU,
            ExtendedCommand::ContextMenuResponse(_) => CONTEXT_MENU_RESPONSE,
        }
    }
}

/// A classic entry that reads back as written.
pub open spec fn classic_entry_roundtrips(e: ContextMenuEntry) -> bool {
    &&& e.text_id >= CLASSIC_CONTEXT_MIN_TEXT_ID
    &&& e.text_id - CLASSIC_CONTEXT_MIN_TEXT_ID <= 0xffff
    &&& e.flags.spec_is_truncated()
    &&& (e.hue is Some) == (e.flags@ & ContextMenuFlags::HUE == ContextMenuFlags::HUE)
}

/// An enhanced entry that reads back as written.
pub open spec fn enhanced_entry_roundtrips(e: ContextMenuEntry) -> bool {
    &&& e.hue is None
    &&& e.flags.spec_is_truncated()
}

proof fn lemma_classic_entries_decode(items: Seq<ContextMenuEntry>, t: Seq<u8>)
    requires
        forall|i: int| 0 <= i < items.len() ==> classic_entry_roundtrips(#[trigger] items[i]),
        classic_entries_wire(items).len() <= t.len(),
        t.take(classic_entries_wire(items).len() as int) == classic_entries_wire(items),
    ensures
        decode_classic_entries(t, 0, items.len()) == Some(
            (items.map_values(|e: ContextMenuEntry| entry_view(e)), classic_entries_wire(items).len() as int),
        ),
    decreases items.len(),
{
    let w = classic_entries_wire(items);
    if items.len() == 0 {
        assert(items.map_values(|e: ContextMenuEntry| entry_view(e)) =~= Seq::<(u16, u32, Option<u16>, u16)>::empty());
    } else {
        let init = items.drop_last();
        let e = items.last();
        let wi = classic_entries_wire(init);
        let ew = classic_entry_wire(e);
        assert(w == wi + ew);
        assert forall|i: int| 0 <= i < init.len() implies classic_entry_roundtrips(#[trigger] init[i]) by {
            assert(init[i] == items[i]);
        }
        assert(t.take(wi.len() as int) =~= wi) by {
            assert forall|k: int| 0 <= k < wi.len() implies #[trigger] t.take(wi.len() as int)[k] == wi[k] by {
                assert(t.take(w.len() as int)[k] == w[k]);
            }
        }
        lemma_classic_entries_decode(init, t);
        assert(classic_entry_roundtrips(items[items.len() - 1]));
        let at = wi.len() as int;
        assert forall|k: int| 0 <= k < ew.len() implies #[trigger] t[at + k] == ew[k] by {
            assert(t.take(w.len() as int)[at + k] == w[at + k]);
        }
        let tw = (e.text_id - CLASSIC_CONTEXT_MIN_TEXT_ID) as u16;
        assert(t.subrange(at, at + 2) =~= u16_be(e.id)) by {
            assert(t[at + 0] == ew[0]);
            assert(t[at + 1] == ew[1]);
        }
        lemma_be_u16_roundtrip(e.id, t, at);
        assert(t.subrange(at + 2, at + 4) =~= u16_be(tw)) by {
            assert(t[at + 2] == ew[2]);
            assert(t[at + 3] == ew[3]);
        }
        lemma_be_u16_roundtrip(tw, t, at + 2);
        assert(t.subrange(at + 4, at + 6) =~= u16_be(e.flags@)) by {
            assert(t[at + 4] == ew[4]);
            assert(t[at + 5] == ew[5]);
        }
        lemma_be_u16_roundtrip(e.flags@, t, at + 4);
        if let Some(h) = e.hue {
            assert(t.subrange(at + 6, at + 8) =~= u16_be(h)) by {
                assert(t[at + 6] == ew[6]);
                assert(t[at + 7] == ew[7]);
            }
            lemma_be_u16_roundtrip(h, t, at + 6);
        }
        assert(items.map_values(|e: ContextMenuEntry| entry_view(e)) =~= init.map_values(
            |e: ContextMenuEntry| entry_view(e),
        ).push(entry_view(e)));
    }
}

proof fn lemma_enhanced_entries_decode(items: Seq<ContextMenuEntry>, t: Seq<u8>)
    requires
        forall|i: int| 0 <= i < items.len() ==> enhanced_entry_roundtrips(#[trigger] items[i]),
        8 * items.len() <= t.len(),
        t.take(8 * items.len() as int) == enhanced_entries_wire(items),
    ensures
        enhanced_entries_of(t, 0, items.len()) == items.map_values(|e: ContextMenuEntry| entry_view(e)),
{
    let f = |e: ContextMenuEntry| enhanced_entry_wire(e);
    lemma_concat_map_fixed(items, f, 8);
    assert forall|i: int| 0 <= i < items.len() implies #[trigger] enhanced_entries_of(t, 0, items.len())[i]
        == entry_view(items[i]) by {
        let e = items[i];
        let ew = enhanced_entry_wire(e);
        assert(enhanced_entries_wire(items).subrange(8 * i, 8 * i + 8) == ew);
        assert forall|k: int| 0 <= k < 8 implies #[trigger] t[8 * i + k] == ew[k] by {
            assert(t.take(8 * items.len() as int)[8 * i + k] == enhanced_entries_wire(items)[8 * i + k]);
        }
        assert(t.subrange(8 * i, 8 * i + 4) =~= u32_be(e.text_id)) by {
            assert(t[8 * i + 0] == ew[0]);
            assert(t[8 * i + 1] == ew[1]);
            assert(t[8 * i + 2] == ew[2]);
            assert(t[8 * i + 3] == ew[3]);
        }
        lemma_be_u32_roundtrip(e.text_id, t, 8 * i);
        assert(t.subrange(8 * i + 4, 8 * i + 6) =~= u16_be(e.id)) by {
            assert(t[8 * i + 4] == ew[4]);
            assert(t[8 * i + 5] == ew[5]);
        }
        lemma_be_u16_roundtrip(e.id, t, 8 * i + 4);
        assert(t.subrange(8 * i + 6, 8 * i + 8) =~= u16_be(e.flags@)) by {
            assert(t[8 * i + 6] == ew[6]);
            assert(t[8 * i + 7] == ew[7]);
        }
        lemma_be_u16_roundtrip(e.flags@, t, 8 * i + 6);
        assert(enhanced_entry_roundtrips(items[i]));
    }
    assert(enhanced_entries_of(t, 0, items.len()) =~= items.map_values(|e: ContextMenuEntry| entry_view(e)));
}

/// A menu's bytes read back as the menu: the classic layout or the enhanced one.
proof fn lemma_menu_roundtrip(m: &ContextMenu, classic: bool, w: Seq<u8>)
    requires
        context_menu_items(m.entries).len() <= 255,
        classic ==> forall|i: int|
            0 <= i < context_menu_items(m.entries).len() ==> classic_entry_roundtrips(
                #[trigger] context_menu_items(m.entries)[i],
            ),
        !classic ==> forall|i: int|
            0 <= i < context_menu_items(m.entries).len() ==> enhanced_entry_roundtrips(
                #[trigger] context_menu_items(m.entries)[i],
            ),
        w == u16_be(CONTEXT_MENU) + u16_be(if classic { 1u16 } else { 2u16 }) + u32_be(m.target_id@) + seq![
            context_menu_items(m.entries).len() as u8,
        ] + if classic {
            classic_entries_wire(context_menu_items(m.entries))
        } else {
            enhanced_entries_wire(context_menu_items(m.entries))
        },
    ensures
        w.len() >= 9,
        be_u16(w, 0) == CONTEXT_MENU,
        be_u16(w, 2) == if classic { 1u16 } else { 2u16 },
        be_u32(w, 4) == m.target_id@,
        w[8] as nat == context_menu_items(m.entries).len(),
        classic ==> decode_classic_entries(w.skip(9), 0, w[8] as nat) == Some(
            (entries_view(m.entries), w.len() - 9),
        ),
        !classic ==> w.len() >= 9 + 8 * w[8] && enhanced_entries_of(w.skip(9), 0, w[8] as nat) == entries_view(
            m.entries,
        ),
{
    let items = context_menu_items(m.entries);
    assert(w.subrange(0, 2) =~= u16_be(CONTEXT_MENU));
    lemma_be_u16_roundtrip(CONTEXT_MENU, w, 0);
    let sub: u16 = if classic { 1u16 } else { 2u16 };
    assert(w.subrange(2, 4) =~= u16_be(sub));
    lemma_be_u16_roundtrip(sub, w, 2);
    assert(w.subrange(4, 8) =~= u32_be(m.target_id@));
    lemma_be_u32_roundtrip(m.target_id@, w, 4);
    let t = w.skip(9);
    if classic {
        let cw = classic_entries_wire(items);
        assert(t =~= cw);
        assert(t.take(cw.len() as int) =~= cw);
        lemma_classic_entries_decode(items, t);
    } else {
        let f = |e: ContextMenuEntry| enhanced_entry_wire(e);
        lemma_concat_map_fixed(items, f, 8);
        let ew = enhanced_entries_wire(items);
        assert(t =~= ew);
        assert(t.take(8 * items.len() as int) =~= ew);
        lemma_enhanced_entries_decode(items, t);
    }
}

impl ExtendedCommand {
    fn decode_classic(payload: &mut &[u8], count: usize) -> (r: Result<ContextMenuEntries, ProtocolError>)
        requires
            count <= 255,
        ensures
            match decode_classic_entries(old(payload)@, 0, count as nat) {
                None => r == Err::<ContextMenuEntries, ProtocolError>(ProtocolError::UnexpectedEof),
                Some((es, _end)) => (r matches Ok(v) && entries_view(v) == es),
            },
    {
        let ghost t = payload@;
        let mut entries = context_menu_items_new();
        let mut k: usize = 0;
        proof {
            assert(entries_view(entries) =~= Seq::<(u16, u32, Option<u16>, u16)>::empty());
            assert(payload@ =~= t.skip(0));
        }
        while k < count
            invariant
                k <= count <= 255,
                t == old(payload)@,
                context_menu_items(entries).len() == k,
                payload@.len() <= t.len(),
                payload@ == t.skip(t.len() - payload@.len()),
                decode_classic_entries(t, 0, k as nat) == Some((entries_view(entries), t.len() - payload@.len())),
            decreases count - k,
        {
            let ghost at = t.len() - payload@.len();
            proof {
                if t.len() < at + 6 {
                    lemma_classic_none_grows(t, 0, (k + 1) as nat, count as nat);
                }
            }
            let id = match payload.read_u16() {
                Ok(v) => v,
                Err(e) => {
                    return Err(e);
                },
            };
            let text_id = match payload.read_u16() {
                Ok(v) => v as u32 + CLASSIC_CONTEXT_MIN_TEXT_ID,
                Err(e) => {
                    return Err(e);
                },
            };
            let flags = match payload.read_u16() {
                Ok(v) => ContextMenuFlags::from_bits_truncate(v),
                Err(e) => {
                    return Err(e);
                },
            };
            proof {
                assert(payload@ =~= t.skip(at + 6));
                if flags@ & ContextMenuFlags::HUE == ContextMenuFlags::HUE && t.len() < at + 8 {
                    lemma_classic_none_grows(t, 0, (k + 1) as nat, count as nat);
                }
            }
            let hue = if flags.contains(ContextMenuFlags::HUE) {
                match payload.read_u16() {
                    Ok(v) => Some(v),
                    Err(e) => {
                        return Err(e);
                    },
                }
            } else {
                None
            };
            proof {
                if hue is Some {
                    assert(payload@ =~= t.skip(at + 8));
                }
            }
            let entry = ContextMenuEntry { id, text_id, hue, flags };
            let ghost before = entries_view(entries);
            context_menu_items_push(&mut entries, entry);
            proof {
                assert(entries_view(entries) =~= before.push(entry_view(entry)));
            }
            k += 1;
        }
        Ok(entries)
    }

    fn decode_enhanced(payload: &mut &[u8], count: usize) -> (r: Result<ContextMenuEntries, ProtocolError>)
        requires
            count <= 255,
        ensures
            old(payload)@.len() < 8 * count ==> r == Err::<ContextMenuEntries, ProtocolError>(
                ProtocolError::UnexpectedEof,
            ),
            old(payload)@.len() >= 8 * count ==> (r matches Ok(v) && entries_view(v) == enhanced_entries_of(
                old(payload)@,
                0,
                count as nat,
            )),
    {
        let ghost t = payload@;
        let mut entries = context_menu_items_new();
        let mut k: usize = 0;
        proof {
            assert(entries_view(entries) =~= enhanced_entries_of(t, 0, 0));
            assert(payload@ =~= t.skip(0));
        }
        while k < count
            invariant
                k <= count <= 255,
                t == old(payload)@,
                context_menu_items(entries).len() == k,
                t.len() >= 8 * k,
                payload@ == t.skip(8 * k),
                entries_view(entries) == enhanced_entries_of(t, 0, k as nat),
            decreases count - k,
        {
            let ghost p0 = payload@;
            let text_id = match payload.read_u32() {
                Ok(v) => v,
                Err(e) => {
                    return Err(e);
                },
            };
            let id = match payload.read_u16() {
                Ok(v) => v,
                Err(e) => {
                    return Err(e);
                },
            };
            let flags = match payload.read_u16() {
                Ok(v) => ContextMenuFlags::from_bits_truncate(v),
                Err(e) => {
                    return Err(e);
                },
            };
            let entry = ContextMenuEntry { id, text_id, hue: None, flags };
            proof {
                assert(text_id == be_u32(t, 8 * k));
                assert(id == be_u16(t, 8 * k + 4));
                assert(flags@ == be_u16(t, 8 * k + 6) & ContextMenuFlags::spec_all());
                assert(enhanced_entries_of(t, 0, (k + 1) as nat) =~= enhanced_entries_of(t, 0, k as nat).push(
                    entry_view(entry),
                ));
            }
            let ghost before = entries_view(entries);
            context_menu_items_push(&mut entries, entry);
            proof {
                assert(payload@ =~= t.skip(8 * (k + 1)));
                assert(entries_view(entries) =~= enhanced_entries_of(t, 0, (k + 1) as nat));
            }
            k += 1;
        }
        Ok(entries)
    }

    /// Writes the entry count and the classic entries, one after the other;
    /// at an entry whose text number lies below the first classic one it
    /// stops, with the entries before it written.
    fn write_classic(writer: &mut Vec<u8>, entries: &ContextMenuEntries) -> (r: Result<(), ProtocolError>)
        ensures
            r is Ok <==> classic_text_ids_fit(context_menu_items(*entries)),
            r is Ok ==> final(writer)@ == old(writer)@ + seq![context_menu_items(*entries).len() as u8]
                + classic_entries_wire(context_menu_items(*entries)),
            r is Err ==> r == Err::<(), ProtocolError>(ProtocolError::InvalidValue) && final(writer)@ == old(
                writer,
            )@ + seq![context_menu_items(*entries).len() as u8] + classic_entries_wire(
                context_menu_items(*entries).take(first_low_text_id(context_menu_items(*entries))),
            ),
    {
        let items = context_menu_items_slice(entries);
        writer.write_u8(items.len() as u8);
        let ghost head = writer@;
        let ghost f = |e: ContextMenuEntry| classic_entry_wire(e);
        let mut i: usize = 0;
        while i < items.len()
            invariant
                i <= items@.len(),
                items@ == context_menu_items(*entries),
                forall|j: int| 0 <= j < i ==> #[trigger] items@[j].text_id >= CLASSIC_CONTEXT_MIN_TEXT_ID,
                f == (|e: ContextMenuEntry| classic_entry_wire(e)),
                writer@ == head + concat_map(items@.take(i as int), f),
                head == old(writer)@ + seq![items@.len() as u8],
            decreases items@.len() - i,
        {
            let entry = items[i];
            if entry.text_id < CLASSIC_CONTEXT_MIN_TEXT_ID {
                proof {
                    let es = items@;
                    assert(0 <= i < es.len() && es[i as int].text_id < CLASSIC_CONTEXT_MIN_TEXT_ID && forall|j: int|
                        0 <= j < i ==> #[trigger] es[j].text_id >= CLASSIC_CONTEXT_MIN_TEXT_ID);
                    let k = first_low_text_id(es);
                    assert(0 <= k < es.len() && es[k].text_id < CLASSIC_CONTEXT_MIN_TEXT_ID && forall|j: int|
                        0 <= j < k ==> #[trigger] es[j].text_id >= CLASSIC_CONTEXT_MIN_TEXT_ID);
                    if k < i {
                        assert(es[k].text_id >= CLASSIC_CONTEXT_MIN_TEXT_ID);
                    } else if k > i {
                        assert(es[i as int].text_id >= CLASSIC_CONTEXT_MIN_TEXT_ID);
                    }
                    assert(k == i);
                    assert(!classic_text_ids_fit(es));
                }
                return Err(ProtocolError::InvalidValue);
            }
            let ghost before = writer@;
            writer.write_u16(entry.id);
            writer.write_u16((entry.text_id - CLASSIC_CONTEXT_MIN_TEXT_ID) as u16);
            writer.write_u16(entry.flags.bits());
            match entry.hue {
                Some(hue) => writer.write_u16(hue),
                None => {},
            }
            proof {
                assert(writer@ =~= before + classic_entry_wire(entry));
                assert(items@.take(i + 1).drop_last() =~= items@.take(i as int));
            }
            i += 1;
        }
        proof {
            assert(items@.take(i as int) =~= items@);
        }
        Ok(())
    }

    fn write_enhanced(writer: &mut Vec<u8>, entries: &ContextMenuEntries)
        ensures
            final(writer)@ == old(writer)@ + seq![context_menu_items(*entries).len() as u8] + enhanced_entries_wire(
                context_menu_items(*entries),
            ),
    {
        let items = context_menu_items_slice(entries);
        writer.write_u8(items.len() as u8);
        let ghost head = writer@;
        let ghost f = |e: ContextMenuEntry| enhanced_entry_wire(e);
        let mut i: usize = 0;
        while i < items.len()
            invariant
                i <= items@.len(),
                items@ == context_menu_items(*entries),
                f == (|e: ContextMenuEntry| enhanced_entry_wire(e)),
                writer@ == head + concat_map(items@.take(i as int), f),
            decreases items@.len() - i,
        {
            let entry = items[i];
            writer.write_u32(entry.text_id);
            writer.write_u16(entry.id);
            writer.write_u16(entry.flags.bits());
            proof {
                assert(items@.take(i + 1).drop_last() =~= items@.take(i as int));
            }
            i += 1;
        }
        proof {
            assert(items@.take(i as int) =~= items@);
        }
    }
}

impl Packet for ExtendedCommand {
    open spec fn spec_packet_kind() -> u8 {
        0xbf
    }

    open spec fn spec_fixed_length(client_version: ClientVersion) -> Option<usize> {
        None
    }

    open spec fn wire(&self, client_version: ClientVersion, to_client: bool) -> Seq<u8> {
        match self {
            ExtendedCommand::Unknown(_) => Seq::empty(),
            ExtendedCommand::CloseGump(c) => u16_be(CLOSE_GUMP) + u32_be(c.gump_id) + u32_be(c.button_id),
            ExtendedCommand::ScreenSize(c) => u16_be(SCREEN_SIZE) + u32_be(c.width) + u32_be(c.height),
            ExtendedCommand::ChangeMap(m) => u16_be(CHANGE_MAP) + seq![*m],
            ExtendedCommand::Language(t) => u16_be(LANGUAGE) + encode_utf8(t@) + seq![0u8],
            ExtendedCommand::CloseStatusGump(id) => u16_be(CLOSE_STATUS_GUMP) + u32_be(*id),
            ExtendedCommand::ClientType(f) => u16_be(CLIENT_TYPE) + u32_be(f@),
            ExtendedCommand::ContextMenuRequest(id) => u16_be(CONTEXT_MENU_REQUEST) + u32_be(id@),
            ExtendedCommand::ContextMenu(m) => u16_be(CONTEXT_MENU) + u16_be(1) + u32_be(m.target_id@) + seq![
                context_menu_items(m.entries).len() as u8,
            ] + classic_entries_wire(context_menu_items(m.entries)),
            ExtendedCommand::ContextMenuEnhanced(m) => u16_be(CONTEXT_MENU) + u16_be(2) + u32_be(m.target_id@)
                + seq![context_menu_items(m.entries).len() as u8] + enhanced_entries_wire(
                context_menu_items(m.entries),
            ),
            ExtendedCommand::ContextMenuResponse(r) => u16_be(CONTEXT_MENU_RESPONSE) + u32_be(r.target_id@)
                + u16_be(r.id),
        }
    }

    /// An unknown command cannot be sent, nor a classic menu with a text
    /// number below the first classic one.
    open spec fn can_encode(&self, client_version: ClientVersion, to_client: bool) -> bool {
        match self {
            ExtendedCommand::Unknown(_) => false,
            ExtendedCommand::ContextMenu(m) => classic_text_ids_fit(context_menu_items(m.entries)),
            _ => true,
        }
    }

    /// A classic menu is written up to the first entry whose text number
    /// lies below the first classic one; an unknown command writes nothing.
    open spec fn wire_on_error(&self, client_version: ClientVersion, to_client: bool) -> Seq<u8> {
        match self {
            ExtendedCommand::ContextMenu(m) => {
                let es = context_menu_items(m.entries);
                u16_be(CONTEXT_MENU) + u16_be(1) + u32_be(m.target_id@) + seq![es.len() as u8]
                    + classic_entries_wire(es.take(first_low_text_id(es)))
            },
            _ => Seq::empty(),
        }
    }

    open spec fn decode_error(client_version: ClientVersion, from_client: bool, s: Seq<u8>) -> Option<ProtocolError> {
        if s.len() < 2 {
            Some(ProtocolError::UnexpectedEof)
        } else {
            let kind = be_u16(s, 0);
            if kind == CLOSE_GUMP || kind == SCREEN_SIZE {
                if s.len() < 10 {
                    Some(ProtocolError::UnexpectedEof)
                } else {
                    None
                }
            } else if kind == CHANGE_MAP {
                if s.len() < 3 {
                    Some(ProtocolError::UnexpectedEof)
                } else {
                    None
                }
            } else if kind == LANGUAGE {
                str_nul_error(s.skip(2))
            } else if kind == CLOSE_STATUS_GUMP || kind == CLIENT_TYPE || kind == CONTEXT_MENU_REQUEST {
                if s.len() < 6 {
                    Some(ProtocolError::UnexpectedEof)
                } else {
                    None
                }
            } else if kind == CONTEXT_MENU {
                if s.len() < 9 {
                    Some(ProtocolError::UnexpectedEof)
                } else if be_u16(s, 2) == 1 && decode_classic_entries(s.skip(9), 0, s[8] as nat) is None {
                    Some(ProtocolError::UnexpectedEof)
                } else if be_u16(s, 2) == 2 && s.len() < 9 + 8 * s[8] {
                    Some(ProtocolError::UnexpectedEof)
                } else {
                    None
                }
            } else if kind == CONTEXT_MENU_RESPONSE {
                if s.len() < 8 {
                    Some(ProtocolError::UnexpectedEof)
                } else {
                    None
                }
            } else {
                None
            }
        }
    }

    open spec fn decodes_to(client_version: ClientVersion, from_client: bool, s: Seq<u8>, p: Self) -> bool {
        let kind = be_u16(s, 0);
        if kind == CLOSE_GUMP {
            p matches ExtendedCommand::CloseGump(c) && c.gump_id == be_u32(s, 2) && c.button_id == be_u32(s, 6)
        } else if kind == SCREEN_SIZE {
            p matches ExtendedCommand::ScreenSize(c) && c.width == be_u32(s, 2) && c.height == be_u32(s, 6)
        } else if kind == CHANGE_MAP {
            p == ExtendedCommand::ChangeMap(s[2])
        } else if kind == LANGUAGE {
            p matches ExtendedCommand::Language(t) && str_nul_text(s.skip(2)) == Some(t@)
        } else if kind == CLOSE_STATUS_GUMP {
            p == ExtendedCommand::CloseStatusGump(be_u32(s, 2))
        } else if kind == CLIENT_TYPE {
            p matches ExtendedCommand::ClientType(f) && f@ == be_u32(s, 2) & ClientFlags::spec_all()
        } else if kind == CONTEXT_MENU_REQUEST {
            p matches ExtendedCommand::ContextMenuRequest(id) && id@ == be_u32(s, 2)
        } else if kind == CONTEXT_MENU {
            if be_u16(s, 2) == 1 {
                &&& p matches ExtendedCommand::ContextMenu(m)
                &&& m.target_id@ == be_u32(s, 4)
                &&& decode_classic_entries(s.skip(9), 0, s[8] as nat) matches Some((es, _end))
                &&& entries_view(m.entries) == es
            } else if be_u16(s, 2) == 2 {
                &&& p matches ExtendedCommand::ContextMenuEnhanced(m)
                &&& m.target_id@ == be_u32(s, 4)
                &&& entries_view(m.entries) == enhanced_entries_of(s.skip(9), 0, s[8] as nat)
            } else {
                p == ExtendedCommand::Unknown(CONTEXT_MENU)
            }
        } else if kind == CONTEXT_MENU_RESPONSE {
            p matches ExtendedCommand::ContextMenuResponse(r) && r.target_id@ == be_u32(s, 2) && r.id == be_u16(s, 6)
        } else {
            p == ExtendedCommand::Unknown(kind)
        }
    }

    /// Text without NUL characters, defined client flags, and menus of at most
    /// 255 entries whose fields fit: classic text numbers within 65535 of the
    /// first classic one and a hue exactly when the hue flag is set, no hue in
    /// an enhanced menu, and defined flags.
    open spec fn roundtrips(&self, client_version: ClientVersion, to_client: bool) -> bool {
        match self {
            ExtendedCommand::Language(t) => no_nul_chars(t@),
            ExtendedCommand::ClientType(f) => f.spec_is_truncated(),
            ExtendedCommand::ContextMenu(m) => {
                &&& context_menu_items(m.entries).len() <= 255
                &&& forall|i: int|
                    0 <= i < context_menu_items(m.entries).len() ==> classic_entry_roundtrips(
                        #[trigger] context_menu_items(m.entries)[i],
                    )
            },
            ExtendedCommand::ContextMenuEnhanced(m) => {
                &&& context_menu_items(m.entries).len() <= 255
                &&& forall|i: int|
                    0 <= i < context_menu_items(m.entries).len() ==> enhanced_entry_roundtrips(
                        #[trigger] context_menu_items(m.entries)[i],
                    )
            },
            _ => true,
        }
    }

    fn packet_kind() -> (r: u8) {
        0xbf
    }

    fn fixed_length(client_version: ClientVersion) -> (r: Option<usize>) {
        None
    }

    fn decode(client_version: ClientVersion, from_client: bool, payload: &[u8]) -> (r: Result<Self, ProtocolError>) {
        let ghost s = payload@;
        let mut payload = payload;
        let kind = payload.read_u16()?;
        proof {
            assert(payload@ =~= s.skip(2));
        }
        if kind == CLOSE_GUMP {
            let gump_id = payload.read_u32()?;
            let button_id = payload.read_u32()?;
            Ok(ExtendedCommand::CloseGump(CloseGump { gump_id, button_id }))
        } else if kind == SCREEN_SIZE {
            let width = payload.read_u32()?;
            let height = payload.read_u32()?;
            Ok(ExtendedCommand::ScreenSize(ScreenSize { width, height }))
        } else if kind == CHANGE_MAP {
            Ok(ExtendedCommand::ChangeMap(payload.read_u8()?))
        } else if kind == LANGUAGE {
            Ok(ExtendedCommand::Language(payload.read_str_nul()?))
        } else if kind == CLOSE_STATUS_GUMP {
            Ok(ExtendedCommand::CloseStatusGump(payload.read_u32()?))
        } else if kind == CLIENT_TYPE {
            Ok(ExtendedCommand::ClientType(ClientFlags::from_bits_truncate(payload.read_u32()?)))
        } else if kind == CONTEXT_MENU_REQUEST {
            Ok(ExtendedCommand::ContextMenuRequest(payload.read_entity_id()?))
        } else if kind == CONTEXT_MENU {
            let subcommand = payload.read_u16()?;
            let target_id = payload.read_entity_id()?;
            let count = payload.read_u8()? as usize;
            proof {
                assert(payload@ =~= s.skip(9));
            }
            if subcommand == 1 {
                let entries = Self::decode_classic(&mut payload, count)?;
                Ok(ExtendedCommand::ContextMenu(ContextMenu { target_id, entries }))
            } else if subcommand == 2 {
                let entries = Self::decode_enhanced(&mut payload, count)?;
                Ok(ExtendedCommand::ContextMenuEnhanced(ContextMenu { target_id, entries }))
            } else {
                Ok(ExtendedCommand::Unknown(CONTEXT_MENU))
            }
        } else if kind == CONTEXT_MENU_RESPONSE {
            let target_id = payload.read_entity_id()?;
            let id = payload.read_u16()?;
            Ok(ExtendedCommand::ContextMenuResponse(ContextMenuResponse { target_id, id }))
        } else {
            Ok(ExtendedCommand::Unknown(kind))
        }
    }

    fn encode(&self, client_version: ClientVersion, to_client: bool, writer: &mut Vec<u8>) -> (r: Result<(), ProtocolError>) {
        if let ExtendedCommand::Unknown(_) = self {
            return Err(ProtocolError::Unsupported);
        }
        writer.write_u16(self.kind());
        match self {
            ExtendedCommand::Unknown(_) => {},
            ExtendedCommand::CloseGump(close_gump) => {
                writer.write_u32(close_gump.gump_id);
                writer.write_u32(close_gump.button_id);
            },
            ExtendedCommand::ScreenSize(screen_size) => {
                writer.write_u32(screen_size.width);
                writer.write_u32(screen_size.height);
            },
            ExtendedCommand::ChangeMap(map) => writer.write_u8(*map),
            ExtendedCommand::Language(language) => writer.write_str_nul(language.as_str()),
            ExtendedCommand::CloseStatusGump(id) => writer.write_u32(*id),
            ExtendedCommand::ClientType(client_type) => writer.write_u32(client_type.bits()),
            ExtendedCommand::ContextMenuRequest(target_id) => writer.write_entity_id(*target_id),
            ExtendedCommand::ContextMenu(menu) => {
                writer.write_u16(1);
                writer.write_entity_id(menu.target_id);
                match Self::write_classic(writer, &menu.entries) {
                    Ok(()) => {},
                    Err(e) => {
                        assert(writer@ =~= old(writer)@ + self.wire_on_error(client_version, to_client));
                        return Err(e);
                    },
                }
            },
            ExtendedCommand::ContextMenuEnhanced(menu) => {
                writer.write_u16(2);
                writer.write_entity_id(menu.target_id);
                Self::write_enhanced(writer, &menu.entries);
            },
            ExtendedCommand::ContextMenuResponse(response) => {
                writer.write_entity_id(response.target_id);
                writer.write_u16(response.id);
            },
        }
        assert(writer@ =~= old(writer)@ + self.wire(client_version, to_client));
        Ok(())
    }

    proof fn lemma_roundtrip(&self, client_version: ClientVersion, to_client: bool) {
        let w = self.wire(client_version, to_client);
        assert(w.subrange(0, 2) =~= u16_be(self.spec_kind().unwrap()));
        lemma_be_u16_roundtrip(self.spec_kind().unwrap(), w, 0);
        match self {
            ExtendedCommand::Unknown(_) => {},
            ExtendedCommand::CloseGump(c) => {
                assert(w.subrange(2, 6) =~= u32_be(c.gump_id));
                lemma_be_u32_roundtrip(c.gump_id, w, 2);
                assert(w.subrange(6, 10) =~= u32_be(c.button_id));
                lemma_be_u32_roundtrip(c.button_id, w, 6);
            },
            ExtendedCommand::ScreenSize(c) => {
                assert(w.subrange(2, 6) =~= u32_be(c.width));
                lemma_be_u32_roundtrip(c.width, w, 2);
                assert(w.subrange(6, 10) =~= u32_be(c.height));
                lemma_be_u32_roundtrip(c.height, w, 6);
            },
            ExtendedCommand::ChangeMap(m) => {},
            ExtendedCommand::Language(t) => {
                lemma_str_nul_roundtrip(t@, Seq::<u8>::empty());
                assert(w.skip(2) =~= encode_utf8(t@) + seq![0u8] + Seq::<u8>::empty());
            },
            ExtendedCommand::CloseStatusGump(id) => {
                assert(w.subrange(2, 6) =~= u32_be(*id));
                lemma_be_u32_roundtrip(*id, w, 2);
            },
            ExtendedCommand::ClientType(f) => {
                assert(w.subrange(2, 6) =~= u32_be(f@));
                lemma_be_u32_roundtrip(f@, w, 2);
            },
            ExtendedCommand::ContextMenuRequest(id) => {
                assert(w.subrange(2, 6) =~= u32_be(id@));
                lemma_be_u32_roundtrip(id@, w, 2);
            },
            ExtendedCommand::ContextMenu(m) => {
                lemma_menu_roundtrip(m, true, w);
            },
            ExtendedCommand::ContextMenuEnhanced(m) => {
                lemma_menu_roundtrip(m, false, w);
            },
            ExtendedCommand::ContextMenuResponse(r) => {
                assert(w.subrange(2, 6) =~= u32_be(r.target_id@));
                lemma_be_u32_roundtrip(r.target_id@, w, 2);
                assert(w.subrange(6, 8) =~= u16_be(r.id));
                lemma_be_u16_roundtrip(r.id, w, 6);
            },
        }
    }
}

/// The command packet of newer clients; its contents are not read.
#[derive(Debug, Clone, Copy)]
pub enum ExtendedCommandAos {
    Unknown,
}

impl Packet for ExtendedCommandAos {
    open spec fn spec_packet_kind() -> u8 {
        0xd7
    }

    open spec fn spec_fixed_length(client_version: ClientVersion) -> Option<usize> {
        None
    }

    open spec fn wire(&self, client_version: ClientVersion, to_client: bool) -> Seq<u8> {
        Seq::empty()
    }

    open spec fn can_encode(&self, client_version: ClientVersion, to_client: bool) -> bool {
        true
    }

    open spec fn decode_error(client_version: ClientVersion, from_client: bool, s: Seq<u8>) -> Option<ProtocolError> {
        None
    }

    open spec fn decodes_to(client_version: ClientVersion, from_client: bool, s: Seq<u8>, p: Self) -> bool {
        p == ExtendedCommandAos::Unknown
    }

    open spec fn roundtrips(&self, client_version: ClientVersion, to_client: bool) -> bool {
        true
    }

    fn packet_kind() -> (r: u8) {
        0xd7
    }

    fn fixed_length(client_version: ClientVersion) -> (r: Option<usize>) {
        None
    }

    fn decode(client_version: ClientVersion, from_client: bool, payload: &[u8]) -> (r: Result<Self, ProtocolError>) {
        Ok(ExtendedCommandAos::Unknown)
    }

    fn encode(&self, client_version: ClientVersion, to_client: bool, writer: &mut Vec<u8>) -> (r: Result<(), ProtocolError>) {
        assert(writer@ =~= old(writer)@ + self.wire(client_version, to_client));
        Ok(())
    }

    proof fn lemma_roundtrip(&self, client_version: ClientVersion, to_client: bool) {
    }
}

/// An extended command starts with its command number, most significant
/// byte first: 4 closes a gump, 5 gives the screen size, 8 changes the map,
/// 11 names the language, 12 closes a status gump, 15 gives the client
/// type, 19 asks for a context menu, 20 is a context menu and 21 answers
/// one. The fields follow, numbers most significant byte first: a gump's
/// id and the button, the width and the height, the map, the id, the flags,
/// the target's id, and for an answer the target's id and the entry.
pub proof fn lemma_extended_command_layout(p: ExtendedCommand, client_version: ClientVersion, to_client: bool)
    requires
        !(p is Unknown),
    ensures
        ({
            let w = p.wire(client_version, to_client);
            &&& w.len() >= 2
            &&& be_u16(w, 0) == match p {
                ExtendedCommand::Unknown(_) => 0u16,
                ExtendedCommand::CloseGump(_) => 4u16,
                ExtendedCommand::ScreenSize(_) => 5u16,
                ExtendedCommand::ChangeMap(_) => 8u16,
                ExtendedCommand::Language(_) => 11u16,
                ExtendedCommand::CloseStatusGump(_) => 12u16,
                ExtendedCommand::ClientType(_) => 15u16,
                ExtendedCommand::ContextMenuRequest(_) => 19u16,
                ExtendedCommand::ContextMenu(_) => 20u16,
                ExtendedCommand::ContextMenuEnhanced(_) => 20u16,
                ExtendedCommand::ContextMenuResponse(_) => 21u16,
            }
            &&& p matches ExtendedCommand::CloseGump(c) ==> w.len() == 10 && be_u32(w, 2) == c.gump_id && be_u32(w, 6)
                == c.button_id
            &&& p matches ExtendedCommand::ScreenSize(c) ==> w.len() == 10 && be_u32(w, 2) == c.width && be_u32(w, 6)
                == c.height
            &&& p matches ExtendedCommand::ChangeMap(m) ==> w.len() == 3 && w[2] == m
            &&& p matches ExtendedCommand::CloseStatusGump(id) ==> w.len() == 6 && be_u32(w, 2) == id
            &&& p matches ExtendedCommand::ClientType(f) ==> w.len() == 6 && be_u32(w, 2) == f@
            &&& p matches ExtendedCommand::ContextMenuRequest(id) ==> w.len() == 6 && be_u32(w, 2) == id@
            &&& p matches ExtendedCommand::ContextMenuResponse(r) ==> w.len() == 8 && be_u32(w, 2) == r.target_id@
                && be_u16(w, 6) == r.id
            &&& p matches ExtendedCommand::ContextMenu(m) ==> be_u16(w, 2) == 1 && be_u32(w, 4) == m.target_id@
            &&& p matches ExtendedCommand::ContextMenuEnhanced(m) ==> be_u16(w, 2) == 2 && be_u32(w, 4) == m.target_id@
        }),
{
    let w = p.wire(client_version, to_client);
    let k = p.spec_kind().unwrap();
    assert(w.subrange(0, 2) =~= u16_be(k));
    lemma_be_u16_roundtrip(k, w, 0);
    match p {
        ExtendedCommand::CloseGump(c) => {
            assert(w.subrange(2, 6) =~= u32_be(c.gump_id));
            lemma_be_u32_roundtrip(c.gump_id, w, 2);
            assert(w.subrange(6, 10) =~= u32_be(c.button_id));
            lemma_be_u32_roundtrip(c.button_id, w, 6);
        },
        ExtendedCommand::ScreenSize(c) => {
            assert(w.subrange(2, 6) =~= u32_be(c.width));
            lemma_be_u32_roundtrip(c.width, w, 2);
            assert(w.subrange(6, 10) =~= u32_be(c.height));
            lemma_be_u32_roundtrip(c.height, w, 6);
        },
        ExtendedCommand::CloseStatusGump(id) => {
            assert(w.subrange(2, 6) =~= u32_be(id));
            lemma_be_u32_roundtrip(id, w, 2);
        },
        ExtendedCommand::ClientType(f) => {
            assert(w.subrange(2, 6) =~= u32_be(f@));
            lemma_be_u32_roundtrip(f@, w, 2);
        },
        ExtendedCommand::ContextMenuRequest(id) => {
            assert(w.subrange(2, 6) =~= u32_be(id@));
            lemma_be_u32_roundtrip(id@, w, 2);
        },
        ExtendedCommand::ContextMenuResponse(r) => {
            assert(w.subrange(2, 6) =~= u32_be(r.target_id@));
            lemma_be_u32_roundtrip(r.target_id@, w, 2);
            assert(w.subrange(6, 8) =~= u16_be(r.id));
            lemma_be_u16_roundtrip(r.id, w, 6);
        },
        ExtendedCommand::ContextMenu(m) => {
            assert(w.subrange(2, 4) =~= u16_be(1));
            lemma_be_u16_roundtrip(1, w, 2);
            assert(w.subrange(4, 8) =~= u32_be(m.target_id@));
            lemma_be_u32_roundtrip(m.target_id@, w, 4);
        },
        ExtendedCommand::ContextMenuEnhanced(m) => {
            assert(w.subrange(2, 4) =~= u16_be(2));
            lemma_be_u16_roundtrip(2, w, 2);
            assert(w.subrange(4, 8) =~= u32_be(m.target_id@));
            lemma_be_u32_roundtrip(m.target_id@, w, 4);
        },
        _ => {},
    }
}

} // verus!
