//! The application messages. Each starts on the wire with the 16-bit stable
//! hash of its full name, which receivers dispatch on; then its fields.
use crate::le::le_value;
use crate::reader::{lemma_rest_advance, parse_string_bytes, DecodeError, NetworkReader};
use crate::stable_hash::{get_stable_hash_code16, stable_hash16};
use crate::writer::{
    bool_byte, string_bytes, u16_bytes, u32_bytes, u64_bytes, vector3_bytes, vector4_bytes, NetworkWriter, Vector3Bits,
    Vector4Bits,
};
use vstd::prelude::*;
use vstd::utf8::{decode_utf8, encode_utf8, valid_utf8};

verus! {

/// A message type: its identifier, how it is written and how it is read.
pub trait NetworkMessageTrait: Sized {
    /// The stable hash of the type's full name.
    spec fn id_spec() -> u16;

    /// Whether the message fits the wire format.
    spec fn serializable(&self) -> bool;

    /// The fields as written after the identifier.
    spec fn body_spec(&self) -> Seq<u8>;

    /// Reading `s` gives `m`, taking `k` bytes.
    spec fn parsed(s: Seq<u8>, m: Self, k: nat) -> bool;

    /// `s` holds no complete message of this type.
    spec fn parse_fails(s: Seq<u8>) -> bool;

    fn get_hash_code() -> (r: u16)
        ensures
            r == Self::id_spec(),
    ;

    /// Writes the identifier, then the fields.
    fn serialize(&self, writer: &mut NetworkWriter)
        requires
            self.serializable(),
        ensures
            final(writer)@ == old(writer)@ + u16_bytes(Self::id_spec()) + self.body_spec(),
    ;

    /// Reads the fields; the identifier has been read already.
    fn deserialize(reader: &mut NetworkReader) -> (r: Result<Self, DecodeError>)
        requires
            old(reader).wf(),
        ensures
            final(reader).wf(),
            final(reader).bytes() == old(reader).bytes(),
            r is Err <==> Self::parse_fails(old(reader).rest()),
            r matches Ok(m) ==> final(reader).pos() >= old(reader).pos()
                && Self::parsed(old(reader).rest(), m, (final(reader).pos() - old(reader).pos()) as nat),
    ;
}

/// A payload: its length plus one as a 32-bit integer, then its bytes.
pub open spec fn payload_bytes(p: Seq<u8>) -> Seq<u8> {
    u32_bytes((p.len() + 1) as u32) + p
}

/// Reads a payload from the front of `s`; a length field of zero stands for
/// an empty payload.
pub open spec fn parse_payload(s: Seq<u8>) -> Option<(Seq<u8>, nat)> {
    if s.len() < 4 {
        None
    } else {
        let n = le_value(s.subrange(0, 4));
        if n == 0 {
            Some((Seq::empty(), 4))
        } else if 4 + n - 1 > s.len() {
            None
        } else {
            Some((s.subrange(4, 4 + n - 1), (4 + n - 1) as nat))
        }
    }
}

pub fn write_payload(writer: &mut NetworkWriter, payload: &Vec<u8>)
    requires
        payload@.len() < u32::MAX,
    ensures
        final(writer)@ == old(writer)@ + payload_bytes(payload@),
{
    writer.write_uint(payload.len() as u32 + 1);
    writer.write_bytes(payload.as_slice());
    assert(writer@ =~= old(writer)@ + payload_bytes(payload@));
}

pub fn read_payload(reader: &mut NetworkReader) -> (r: Result<Vec<u8>, DecodeError>)
    requires
        old(reader).wf(),
    ensures
        final(reader).wf(),
        final(reader).bytes() == old(reader).bytes(),
        match parse_payload(old(reader).rest()) {
            None => r is Err,
            Some((p, k)) => r is Ok && r.unwrap()@ == p && final(reader).pos() == old(reader).pos() + k,
        },
{
    let ghost s = old(reader).rest();
    let n = match reader.read_uint() {
        Ok(n) => n,
        Err(e) => return Err(e),
    };
    assert(old(reader).ahead(4) =~= s.subrange(0, 4));
    if n == 0 {
        return Ok(Vec::new());
    }
    proof { lemma_rest_advance(old(reader), reader); }
    match reader.read_bytes((n - 1) as usize) {
        Ok(v) => {
            assert(v@ =~= s.subrange(4, 4 + n - 1));
            Ok(v)
        },
        Err(e) => Err(e),
    }
}

#[derive(Debug, Clone, Copy, PartialEq, Eq, Structural)]
pub enum SceneOperation {
    Normal,
    LoadAdditive,
    UnloadAdditive,
}

pub open spec fn scene_operation_of(value: u8) -> SceneOperation {
    if value == 1 {
        SceneOperation::LoadAdditive
    } else if value == 2 {
        SceneOperation::UnloadAdditive
    } else {
        SceneOperation::Normal
    }
}

pub open spec fn scene_operation_byte(op: SceneOperation) -> u8 {
    match op {
        SceneOperation::Normal => 0,
        SceneOperation::LoadAdditive => 1,
        SceneOperation::UnloadAdditive => 2,
    }
}

impl SceneOperation {
    /// The operation for a byte; unknown bytes mean `Normal`.
    pub fn from(value: u8) -> (r: SceneOperation)
        ensures
            r == scene_operation_of(value),
    {
        match value {
            1 => SceneOperation::LoadAdditive,
            2 => SceneOperation::UnloadAdditive,
            _ => SceneOperation::Normal,
        }
    }

    pub fn to_u8(&self) -> (r: u8)
        ensures
            r == scene_operation_byte(*self),
    {
        match self {
            SceneOperation::Normal => 0,
            SceneOperation::LoadAdditive => 1,
            SceneOperation::UnloadAdditive => 2,
        }
    }
}

/// Tells a client to change scene.
#[derive(Debug, PartialEq, Eq)]
pub struct SceneMessage {
    pub scene_name: String,
    pub operation: SceneOperation,
    pub custom_handling: bool,
}

impl SceneMessage {
    pub fn new(scene_name: String, operation: SceneOperation, custom_handling: bool) -> (r: SceneMessage)
        ensures
            r.scene_name@ == scene_name@,
            r.operation == operation,
            r.custom_handling == custom_handling,
    {
        SceneMessage { scene_name, operation, custom_handling }
    }
}

impl NetworkMessageTrait for SceneMessage {
    open spec fn id_spec() -> u16 {
        stable_hash16(encode_utf8("Mirror.SceneMessage"@))
    }

    open spec fn serializable(&self) -> bool {
        true
    }

    open spec fn body_spec(&self) -> Seq<u8> {
        string_bytes(self.scene_name@) + seq![scene_operation_byte(self.operation), bool_byte(self.custom_handling)]
    }

    open spec fn parsed(s: Seq<u8>, m: Self, k: nat) -> bool {
        parse_string_bytes(s) matches Some((b, k1)) && valid_utf8(b) && m.scene_name@ == decode_utf8(b)
            && s.len() >= k1 + 2 && m.operation == scene_operation_of(s[k1 as int])
            && m.custom_handling == (s[k1 + 1int] != 0) && k == k1 + 2
    }

    open spec fn parse_fails(s: Seq<u8>) -> bool {
        match parse_string_bytes(s) {
            None => true,
            Some((b, k1)) => !valid_utf8(b) || s.len() < k1 + 2,
        }
    }

    fn get_hash_code() -> (r: u16) {
        get_stable_hash_code16("Mirror.SceneMessage")
    }

    fn serialize(&self, writer: &mut NetworkWriter) {
        writer.write_ushort(Self::get_hash_code());
        writer.write_string(self.scene_name.as_str());
        writer.write_byte(self.operation.to_u8());
        writer.write_bool(self.custom_handling);
        assert(writer@ =~= old(writer)@ + u16_bytes(Self::id_spec()) + self.body_spec());
    }

    fn deserialize(reader: &mut NetworkReader) -> (r: Result<Self, DecodeError>) {
        let ghost s = old(reader).rest();
        let scene_name = match reader.read_string() {
            Ok(v) => v,
            Err(e) => return Err(e),
        };
        proof { lemma_rest_advance(old(reader), reader); }
        if reader.remaining() < 2 {
            return Err(DecodeError::EndOfData);
        }
        let ghost rb = *reader;
        let op = match reader.read_byte() {
            Ok(v) => v,
            Err(e) => return Err(e),
        };
        let custom_handling = match reader.read_bool() {
            Ok(v) => v,
            Err(e) => return Err(e),
        };
        assert(rb.bytes()[rb.pos()] == s[rb.pos() - old(reader).pos()]);
        assert(rb.bytes()[rb.pos() + 1] == s[rb.pos() - old(reader).pos() + 1]);
        Ok(SceneMessage { scene_name, operation: SceneOperation::from(op), custom_handling })
    }
}

/// Carries no fields: its arrival time is the sample.
#[derive(Debug, Clone, Copy, PartialEq, Eq, Structural)]
pub struct TimeSnapshotMessage;

impl NetworkMessageTrait for TimeSnapshotMessage {
    open spec fn id_spec() -> u16 {
        stable_hash16(encode_utf8("Mirror.TimeSnapshotMessage"@))
    }

    open spec fn serializable(&self) -> bool {
        true
    }

    open spec fn body_spec(&self) -> Seq<u8> {
        Seq::empty()
    }

    open spec fn parsed(s: Seq<u8>, m: Self, k: nat) -> bool {
        k == 0
    }

    open spec fn parse_fails(s: Seq<u8>) -> bool {
        false
    }

    fn get_hash_code() -> (r: u16) {
        get_stable_hash_code16("Mirror.TimeSnapshotMessage")
    }

    fn serialize(&self, writer: &mut NetworkWriter) {
        writer.write_ushort(Self::get_hash_code());
        assert(writer@ =~= old(writer)@ + u16_bytes(Self::id_spec()) + self.body_spec());
    }

    fn deserialize(reader: &mut NetworkReader) -> (r: Result<Self, DecodeError>) {
        Ok(TimeSnapshotMessage)
    }
}

/// A client is ready to receive spawned objects.
#[derive(Debug, Clone, Copy, PartialEq, Eq, Structural)]
pub struct ReadyMessage;

impl NetworkMessageTrait for ReadyMessage {
    open spec fn id_spec() -> u16 {
        stable_hash16(encode_utf8("Mirror.ReadyMessage"@))
    }

    open spec fn serializable(&self) -> bool {
        true
    }

    open spec fn body_spec(&self) -> Seq<u8> {
        Seq::empty()
    }

    open spec fn parsed(s: Seq<u8>, m: Self, k: nat) -> bool {
        k == 0
    }

    open spec fn parse_fails(s: Seq<u8>) -> bool {
        false
    }

    fn get_hash_code() -> (r: u16) {
        get_stable_hash_code16("Mirror.ReadyMessage")
    }

    fn serialize(&self, writer: &mut NetworkWriter) {
        writer.write_ushort(Self::get_hash_code());
        assert(writer@ =~= old(writer)@ + u16_bytes(Self::id_spec()) + self.body_spec());
    }

    fn deserialize(reader: &mut NetworkReader) -> (r: Result<Self, DecodeError>) {
        Ok(ReadyMessage)
    }
}

/// A client stops receiving spawned objects.
#[derive(Debug, Clone, Copy, PartialEq, Eq, Structural)]
pub struct NotReadyMessage;

impl NetworkMessageTrait for NotReadyMessage {
    open spec fn id_spec() -> u16 {
        stable_hash16(encode_utf8("Mirror.NotReadyMessage"@))
    }

    open spec fn serializable(&self) -> bool {
        true
    }

    open spec fn body_spec(&self) -> Seq<u8> {
        Seq::empty()
    }

    open spec fn parsed(s: Seq<u8>, m: Self, k: nat) -> bool {
        k == 0
    }

    open spec fn parse_fails(s: Seq<u8>) -> bool {
        false
    }

    fn get_hash_code() -> (r: u16) {
        get_stable_hash_code16("Mirror.NotReadyMessage")
    }

    fn serialize(&self, writer: &mut NetworkWriter) {
        writer.write_ushort(Self::get_hash_code());
        assert(writer@ =~= old(writer)@ + u16_bytes(Self::id_spec()) + self.body_spec());
    }

    fn deserialize(reader: &mut NetworkReader) -> (r: Result<Self, DecodeError>) {
        Ok(NotReadyMessage)
    }
}

/// A client asks for its player object.
#[derive(Debug, Clone, Copy, PartialEq, Eq, Structural)]
pub struct AddPlayerMessage;

impl NetworkMessageTrait for AddPlayerMessage {
    open spec fn id_spec() -> u16 {
        stable_hash16(encode_utf8("Mirror.AddPlayerMessage"@))
    }

    open spec fn serializable(&self) -> bool {
        true
    }

    open spec fn body_spec(&self) -> Seq<u8> {
        Seq::empty()
    }

    open spec fn parsed(s: Seq<u8>, m: Self, k: nat) -> bool {
        k == 0
    }

    open spec fn parse_fails(s: Seq<u8>) -> bool {
        false
    }

    fn get_hash_code() -> (r: u16) {
        get_stable_hash_code16("Mirror.AddPlayerMessage")
    }

    fn serialize(&self, writer: &mut NetworkWriter) {
        writer.write_ushort(Self::get_hash_code());
        assert(writer@ =~= old(writer)@ + u16_bytes(Self::id_spec()) + self.body_spec());
    }

    fn deserialize(reader: &mut NetworkReader) -> (r: Result<Self, DecodeError>) {
        Ok(AddPlayerMessage)
    }
}

/// A call from a client to a component on the server.
#[derive(Debug, PartialEq, Eq)]
pub struct CommandMessage {
    pub net_id: u32,
    pub component_index: u8,
    pub function_hash: u16,
    pub payload: Vec<u8>,
}

impl CommandMessage {
    pub fn new(net_id: u32, component_index: u8, function_hash: u16, payload: Vec<u8>) -> (r: CommandMessage)
        ensures
            r.net_id == net_id,
            r.component_index == component_index,
            r.function_hash == function_hash,
            r.payload@ == payload@,
    {
        CommandMessage { net_id, component_index, function_hash, payload }
    }

    /// A copy of the payload.
    pub fn get_payload(&self) -> (r: Vec<u8>)
        ensures
            r@ == self.payload@,
    {
        let mut w = NetworkWriter::new();
        w.write_bytes(self.payload.as_slice());
        w.to_bytes()
    }
}

impl NetworkMessageTrait for CommandMessage {
    open spec fn id_spec() -> u16 {
        stable_hash16(encode_utf8("Mirror.CommandMessage"@))
    }

    open spec fn serializable(&self) -> bool {
        self.payload@.len() < u32::MAX
    }

    open spec fn body_spec(&self) -> Seq<u8> {
        u32_bytes(self.net_id) + seq![self.component_index] + u16_bytes(self.function_hash) + payload_bytes(self.payload@)
    }

    open spec fn parsed(s: Seq<u8>, m: Self, k: nat) -> bool {
        s.len() >= 7
        && m.net_id as nat == le_value(s.subrange(0, 4))
        && m.component_index == s[4]
        && m.function_hash as nat == le_value(s.subrange(5, 7))
        && (parse_payload(s.subrange(7, s.len() as int)) matches Some((p, j)) && m.payload@ == p && k == 7 + j)
    }

    open spec fn parse_fails(s: Seq<u8>) -> bool {
        s.len() < 7 || parse_payload(s.subrange(7, s.len() as int)) is None
    }

    fn get_hash_code() -> (r: u16) {
        get_stable_hash_code16("Mirror.CommandMessage")
    }

    fn serialize(&self, writer: &mut NetworkWriter) {
        writer.write_ushort(Self::get_hash_code());
        writer.write_uint(self.net_id);
        writer.write_byte(self.component_index);
        writer.write_ushort(self.function_hash);
        write_payload(writer, &self.payload);
        assert(writer@ =~= old(writer)@ + u16_bytes(Self::id_spec()) + self.body_spec());
    }

    fn deserialize(reader: &mut NetworkReader) -> (r: Result<Self, DecodeError>) {
        let ghost s = old(reader).rest();
        if reader.remaining() < 7 {
            return Err(DecodeError::EndOfData);
        }
        let ghost rb = *reader;
        let net_id = match reader.read_uint() {
            Ok(v) => v,
            Err(e) => return Err(e),
        };
        assert(rb.ahead(4) =~= s.subrange(0, 4));
        let ghost rb = *reader;
        let component_index = match reader.read_byte() {
            Ok(v) => v,
            Err(e) => return Err(e),
        };
        assert(rb.bytes()[rb.pos()] == s[4]);
        let ghost rb = *reader;
        let function_hash = match reader.read_ushort() {
            Ok(v) => v,
            Err(e) => return Err(e),
        };
        assert(rb.ahead(2) =~= s.subrange(5, 7));
        proof { lemma_rest_advance(old(reader), reader); }
        let payload = match read_payload(reader) {
            Ok(p) => p,
            Err(e) => return Err(e),
        };
        Ok(CommandMessage { net_id, component_index, function_hash, payload })
    }
}

/// A call from the server to a component on clients.
#[derive(Debug, PartialEq, Eq)]
pub struct RpcMessage {
    pub net_id: u32,
    pub component_index: u8,
    pub function_hash: u16,
    pub payload: Vec<u8>,
}

impl RpcMessage {
    pub fn new(net_id: u32, component_index: u8, function_hash: u16, payload: Vec<u8>) -> (r: RpcMessage)
        ensures
            r.net_id == net_id,
            r.component_index == component_index,
            r.function_hash == function_hash,
            r.payload@ == payload@,
    {
        RpcMessage { net_id, component_index, function_hash, payload }
    }

    /// A copy of the payload.
    pub fn get_payload(&self) -> (r: Vec<u8>)
        ensures
            r@ == self.payload@,
    {
        let mut w = NetworkWriter::new();
        w.write_bytes(self.payload.as_slice());
        w.to_bytes()
    }
}

impl NetworkMessageTrait for RpcMessage {
    open spec fn id_spec() -> u16 {
        stable_hash16(encode_utf8("Mirror.RpcMessage"@))
    }

    open spec fn serializable(&self) -> bool {
        self.payload@.len() < u32::MAX
    }

    open spec fn body_spec(&self) -> Seq<u8> {
        u32_bytes(self.net_id) + seq![self.component_index] + u16_bytes(self.function_hash) + payload_bytes(self.payload@)
    }

    open spec fn parsed(s: Seq<u8>, m: Self, k: nat) -> bool {
        s.len() >= 7
        && m.net_id as nat == le_value(s.subrange(0, 4))
        && m.component_index == s[4]
        && m.function_hash as nat == le_value(s.subrange(5, 7))
        && (parse_payload(s.subrange(7, s.len() as int)) matches Some((p, j)) && m.payload@ == p && k == 7 + j)
    }

    open spec fn parse_fails(s: Seq<u8>) -> bool {
        s.len() < 7 || parse_payload(s.subrange(7, s.len() as int)) is None
    }

    fn get_hash_code() -> (r: u16) {
        get_stable_hash_code16("Mirror.RpcMessage")
    }

    fn serialize(&self, writer: &mut NetworkWriter) {
        writer.write_ushort(Self::get_hash_code());
        writer.write_uint(self.net_id);
        writer.write_byte(self.component_index);
        writer.write_ushort(self.function_hash);
        write_payload(writer, &self.payload);
        assert(writer@ =~= old(writer)@ + u16_bytes(Self::id_spec()) + self.body_spec());
    }

    fn deserialize(reader: &mut NetworkReader) -> (r: Result<Self, DecodeError>) {
        let ghost s = old(reader).rest();
        if reader.remaining() < 7 {
            return Err(DecodeError::EndOfData);
        }
        let ghost rb = *reader;
        let net_id = match reader.read_uint() {
            Ok(v) => v,
            Err(e) => return Err(e),
        };
        assert(rb.ahead(4) =~= s.subrange(0, 4));
        let ghost rb = *reader;
        let component_index = match reader.read_byte() {
            Ok(v) => v,
            Err(e) => return Err(e),
        };
        assert(rb.bytes()[rb.pos()] == s[4]);
        let ghost rb = *reader;
        let function_hash = match reader.read_ushort() {
            Ok(v) => v,
            Err(e) => return Err(e),
        };
        assert(rb.ahead(2) =~= s.subrange(5, 7));
        proof { lemma_rest_advance(old(reader), reader); }
        let payload = match read_payload(reader) {
            Ok(p) => p,
            Err(e) => return Err(e),
        };
        Ok(RpcMessage { net_id, component_index, function_hash, payload })
    }
}

/// Creates an object on a client, with its initial state as payload.
#[derive(Debug, PartialEq, Eq)]
pub struct SpawnMessage {
    pub net_id: u32,
    pub is_local_player: bool,
    pub is_owner: bool,
    pub scene_id: u64,
    pub asset_id: u32,
    pub position: Vector3Bits,
    pub rotation: Vector4Bits,
    pub scale: Vector3Bits,
    pub payload: Vec<u8>,
}

impl SpawnMessage {
    pub fn new(net_id: u32, is_local_player: bool, is_owner: bool, scene_id: u64, asset_id: u32, position: Vector3Bits, rotation: Vector4Bits, scale: Vector3Bits, payload: Vec<u8>) -> (r: SpawnMessage)
        ensures
            r.net_id == net_id,
            r.is_local_player == is_local_player,
            r.is_owner == is_owner,
            r.scene_id == scene_id,
            r.asset_id == asset_id,
            r.position == position,
            r.rotation == rotation,
            r.scale == scale,
            r.payload@ == payload@,
    {
        SpawnMessage { net_id, is_local_player, is_owner, scene_id, asset_id, position, rotation, scale, payload }
    }

    /// A copy of the payload.
    pub fn get_payload(&self) -> (r: Vec<u8>)
        ensures
            r@ == self.payload@,
    {
        let mut w = NetworkWriter::new();
        w.write_bytes(self.payload.as_slice());
        w.to_bytes()
    }
}

impl NetworkMessageTrait for SpawnMessage {
    open spec fn id_spec() -> u16 {
        stable_hash16(encode_utf8("Mirror.SpawnMessage"@))
    }

    open spec fn serializable(&self) -> bool {
        self.payload@.len() < u32::MAX
    }

    open spec fn body_spec(&self) -> Seq<u8> {
        u32_bytes(self.net_id) + seq![bool_byte(self.is_local_player)] + seq![bool_byte(self.is_owner)] + u64_bytes(self.scene_id) + u32_bytes(self.asset_id) + vector3_bytes(self.position) + vector4_bytes(self.rotation) + vector3_bytes(self.scale) + payload_bytes(self.payload@)
    }

    open spec fn parsed(s: Seq<u8>, m: Self, k: nat) -> bool {
        s.len() >= 58
        && m.net_id as nat == le_value(s.subrange(0, 4))
        && m.is_local_player == (s[4] != 0)
        && m.is_owner == (s[5] != 0)
        && m.scene_id as nat == le_value(s.subrange(6, 14))
        && m.asset_id as nat == le_value(s.subrange(14, 18))
        && m.position.x as nat == le_value(s.subrange(18, 22))
        && m.position.y as nat == le_value(s.subrange(22, 26))
        && m.position.z as nat == le_value(s.subrange(26, 30))
        && m.rotation.x as nat == le_value(s.subrange(30, 34))
        && m.rotation.y as nat == le_value(s.subrange(34, 38))
        && m.rotation.z as nat == le_value(s.subrange(38, 42))
        && m.rotation.w as nat == le_value(s.subrange(42, 46))
        && m.scale.x as nat == le_value(s.subrange(46, 50))
        && m.scale.y as nat == le_value(s.subrange(50, 54))
        && m.scale.z as nat == le_value(s.subrange(54, 58))
        && (parse_payload(s.subrange(58, s.len() as int)) matches Some((p, j)) && m.payload@ == p && k == 58 + j)
    }

    open spec fn parse_fails(s: Seq<u8>) -> bool {
        s.len() < 58 || parse_payload(s.subrange(58, s.len() as int)) is None
    }

    fn get_hash_code() -> (r: u16) {
        get_stable_hash_code16("Mirror.SpawnMessage")
    }

    fn serialize(&self, writer: &mut NetworkWriter) {
        writer.write_ushort(Self::get_hash_code());
        writer.write_uint(self.net_id);
        writer.write_bool(self.is_local_player);
        writer.write_bool(self.is_owner);
        writer.write_ulong(self.scene_id);
        writer.write_uint(self.asset_id);
        writer.write_vector3(self.position);
        writer.write_quaternion(self.rotation);
        writer.write_vector3(self.scale);
        write_payload(writer, &self.payload);
        assert(writer@ =~= old(writer)@ + u16_bytes(Self::id_spec()) + self.body_spec());
    }

    fn deserialize(reader: &mut NetworkReader) -> (r: Result<Self, DecodeError>) {
        let ghost s = old(reader).rest();
        if reader.remaining() < 58 {
            return Err(DecodeError::EndOfData);
        }
        let ghost rb = *reader;
        let net_id = match reader.read_uint() {
            Ok(v) => v,
            Err(e) => return Err(e),
        };
        assert(rb.ahead(4) =~= s.subrange(0, 4));
        let ghost rb = *reader;
        let is_local_player = match reader.read_bool() {
            Ok(v) => v,
            Err(e) => return Err(e),
        };
        assert(rb.bytes()[rb.pos()] == s[4]);
        let ghost rb = *reader;
        let is_owner = match reader.read_bool() {
            Ok(v) => v,
            Err(e) => return Err(e),
        };
        assert(rb.bytes()[rb.pos()] == s[5]);
        let ghost rb = *reader;
        let scene_id = match reader.read_ulong() {
            Ok(v) => v,
            Err(e) => return Err(e),
        };
        assert(rb.ahead(8) =~= s.subrange(6, 14));
        let ghost rb = *reader;
        let asset_id = match reader.read_uint() {
            Ok(v) => v,
            Err(e) => return Err(e),
        };
        assert(rb.ahead(4) =~= s.subrange(14, 18));
        let ghost rb = *reader;
        let position = match reader.read_vector3() {
            Ok(v) => v,
            Err(e) => return Err(e),
        };
        assert(rb.ahead(12) =~= s.subrange(18, 30));
        assert(rb.ahead(12).subrange(0, 4) =~= s.subrange(18, 22));
        assert(rb.ahead(12).subrange(4, 8) =~= s.subrange(22, 26));
        assert(rb.ahead(12).subrange(8, 12) =~= s.subrange(26, 30));
        let ghost rb = *reader;
        let rotation = match reader.read_quaternion() {
            Ok(v) => v,
            Err(e) => return Err(e),
        };
        assert(rb.ahead(16) =~= s.subrange(30, 46));
        assert(rb.ahead(16).subrange(0, 4) =~= s.subrange(30, 34));
        assert(rb.ahead(16).subrange(4, 8) =~= s.subrange(34, 38));
        assert(rb.ahead(16).subrange(8, 12) =~= s.subrange(38, 42));
        assert(rb.ahead(16).subrange(12, 16) =~= s.subrange(42, 46));
        let ghost rb = *reader;
        let scale = match reader.read_vector3() {
            Ok(v) => v,
            Err(e) => return Err(e),
        };
        assert(rb.ahead(12) =~= s.subrange(46, 58));
        assert(rb.ahead(12).subrange(0, 4) =~= s.subrange(46, 50));
        assert(rb.ahead(12).subrange(4, 8) =~= s.subrange(50, 54));
        assert(rb.ahead(12).subrange(8, 12) =~= s.subrange(54, 58));
        proof { lemma_rest_advance(old(reader), reader); }
        let payload = match read_payload(reader) {
            Ok(p) => p,
            Err(e) => return Err(e),
        };
        Ok(SpawnMessage { net_id, is_local_player, is_owner, scene_id, asset_id, position, rotation, scale, payload })
    }
}

/// Tells a client whether it owns an object.
#[derive(Debug, Clone, Copy, PartialEq, Eq, Structural)]
pub struct ChangeOwnerMessage {
    pub net_id: u32,
    pub is_owner: bool,
    pub is_local_player: bool,
}

impl ChangeOwnerMessage {
    pub fn new(net_id: u32, is_owner: bool, is_local_player: bool) -> (r: ChangeOwnerMessage)
        ensures
            r.net_id == net_id,
            r.is_owner == is_owner,
            r.is_local_player == is_local_player,
    {
        ChangeOwnerMessage { net_id, is_owner, is_local_player }
    }
}

impl NetworkMessageTrait for ChangeOwnerMessage {
    open spec fn id_spec() -> u16 {
        stable_hash16(encode_utf8("Mirror.ChangeOwnerMessage"@))
    }

    open spec fn serializable(&self) -> bool {
        true
    }

    open spec fn body_spec(&self) -> Seq<u8> {
        u32_bytes(self.net_id) + seq![bool_byte(self.is_owner)] + seq![bool_byte(self.is_local_player)]
    }

    open spec fn parsed(s: Seq<u8>, m: Self, k: nat) -> bool {
        s.len() >= 6
        && m.net_id as nat == le_value(s.subrange(0, 4))
        && m.is_owner == (s[4] != 0)
        && m.is_local_player == (s[5] != 0)
        && k == 6
    }

    open spec fn parse_fails(s: Seq<u8>) -> bool {
        s.len() < 6
    }

    fn get_hash_code() -> (r: u16) {
        get_stable_hash_code16("Mirror.ChangeOwnerMessage")
    }

    fn serialize(&self, writer: &mut NetworkWriter) {
        writer.write_ushort(Self::get_hash_code());
        writer.write_uint(self.net_id);
        writer.write_bool(self.is_owner);
        writer.write_bool(self.is_local_player);
        assert(writer@ =~= old(writer)@ + u16_bytes(Self::id_spec()) + self.body_spec());
    }

    fn deserialize(reader: &mut NetworkReader) -> (r: Result<Self, DecodeError>) {
        let ghost s = old(reader).rest();
        if reader.remaining() < 6 {
            return Err(DecodeError::EndOfData);
        }
        let ghost rb = *reader;
        let net_id = match reader.read_uint() {
            Ok(v) => v,
            Err(e) => return Err(e),
        };
        assert(rb.ahead(4) =~= s.subrange(0, 4));
        let ghost rb = *reader;
        let is_owner = match reader.read_bool() {
            Ok(v) => v,
            Err(e) => return Err(e),
        };
        assert(rb.bytes()[rb.pos()] == s[4]);
        let ghost rb = *reader;
        let is_local_player = match reader.read_bool() {
            Ok(v) => v,
            Err(e) => return Err(e),
        };
        assert(rb.bytes()[rb.pos()] == s[5]);
        Ok(ChangeOwnerMessage { net_id, is_owner, is_local_player })
    }
}

/// Opens a batch of spawn messages.
#[derive(Debug, Clone, Copy, PartialEq, Eq, Structural)]
pub struct ObjectSpawnStartedMessage;

impl NetworkMessageTrait for ObjectSpawnStartedMessage {
    open spec fn id_spec() -> u16 {
        stable_hash16(encode_utf8("Mirror.ObjectSpawnStartedMessage"@))
    }

    open spec fn serializable(&self) -> bool {
        true
    }

    open spec fn body_spec(&self) -> Seq<u8> {
        Seq::empty()
    }

    open spec fn parsed(s: Seq<u8>, m: Self, k: nat) -> bool {
        k == 0
    }

    open spec fn parse_fails(s: Seq<u8>) -> bool {
        false
    }

    fn get_hash_code() -> (r: u16) {
        get_stable_hash_code16("Mirror.ObjectSpawnStartedMessage")
    }

    fn serialize(&self, writer: &mut NetworkWriter) {
        writer.write_ushort(Self::get_hash_code());
        assert(writer@ =~= old(writer)@ + u16_bytes(Self::id_spec()) + self.body_spec());
    }

    fn deserialize(reader: &mut NetworkReader) -> (r: Result<Self, DecodeError>) {
        Ok(ObjectSpawnStartedMessage)
    }
}

/// Closes a batch of spawn messages.
#[derive(Debug, Clone, Copy, PartialEq, Eq, Structural)]
pub struct ObjectSpawnFinishedMessage;

impl NetworkMessageTrait for ObjectSpawnFinishedMessage {
    open spec fn id_spec() -> u16 {
        stable_hash16(encode_utf8("Mirror.ObjectSpawnFinishedMessage"@))
    }

    open spec fn serializable(&self) -> bool {
        true
    }

    open spec fn body_spec(&self) -> Seq<u8> {
        Seq::empty()
    }

    open spec fn parsed(s: Seq<u8>, m: Self, k: nat) -> bool {
        k == 0
    }

    open spec fn parse_fails(s: Seq<u8>) -> bool {
        false
    }

    fn get_hash_code() -> (r: u16) {
        get_stable_hash_code16("Mirror.ObjectSpawnFinishedMessage")
    }

    fn serialize(&self, writer: &mut NetworkWriter) {
        writer.write_ushort(Self::get_hash_code());
        assert(writer@ =~= old(writer)@ + u16_bytes(Self::id_spec()) + self.body_spec());
    }

    fn deserialize(reader: &mut NetworkReader) -> (r: Result<Self, DecodeError>) {
        Ok(ObjectSpawnFinishedMessage)
    }
}

/// Destroys an object on clients.
#[derive(Debug, Clone, Copy, PartialEq, Eq, Structural)]
pub struct ObjectDestroyMessage {
    pub net_id: u32,
}

impl ObjectDestroyMessage {
    pub fn new(net_id: u32) -> (r: ObjectDestroyMessage)
        ensures
            r.net_id == net_id,
    {
        ObjectDestroyMessage { net_id }
    }
}

impl NetworkMessageTrait for ObjectDestroyMessage {
    open spec fn id_spec() -> u16 {
        stable_hash16(encode_utf8("Mirror.ObjectDestroyMessage"@))
    }

    open spec fn serializable(&self) -> bool {
        true
    }

    open spec fn body_spec(&self) -> Seq<u8> {
        u32_bytes(self.net_id)
    }

    open spec fn parsed(s: Seq<u8>, m: Self, k: nat) -> bool {
        s.len() >= 4
        && m.net_id as nat == le_value(s.subrange(0, 4))
        && k == 4
    }

    open spec fn parse_fails(s: Seq<u8>) -> bool {
        s.len() < 4
    }

    fn get_hash_code() -> (r: u16) {
        get_stable_hash_code16("Mirror.ObjectDestroyMessage")
    }

    fn serialize(&self, writer: &mut NetworkWriter) {
        writer.write_ushort(Self::get_hash_code());
        writer.write_uint(self.net_id);
        assert(writer@ =~= old(writer)@ + u16_bytes(Self::id_spec()) + self.body_spec());
    }

    fn deserialize(reader: &mut NetworkReader) -> (r: Result<Self, DecodeError>) {
        let ghost s = old(reader).rest();
        if reader.remaining() < 4 {
            return Err(DecodeError::EndOfData);
        }
        let ghost rb = *reader;
        let net_id = match reader.read_uint() {
            Ok(v) => v,
            Err(e) => return Err(e),
        };
        assert(rb.ahead(4) =~= s.subrange(0, 4));
        Ok(ObjectDestroyMessage { net_id })
    }
}

/// Hides an object from a client.
#[derive(Debug, Clone, Copy, PartialEq, Eq, Structural)]
pub struct ObjectHideMessage {
    pub net_id: u32,
}

impl ObjectHideMessage {
    pub fn new(net_id: u32) -> (r: ObjectHideMessage)
        ensures
            r.net_id == net_id,
    {
        ObjectHideMessage { net_id }
    }
}

impl NetworkMessageTrait for ObjectHideMessage {
    open spec fn id_spec() -> u16 {
        stable_hash16(encode_utf8("Mirror.ObjectHideMessage"@))
    }

    open spec fn serializable(&self) -> bool {
        true
    }

    open spec fn body_spec(&self) -> Seq<u8> {
        u32_bytes(self.net_id)
    }

    open spec fn parsed(s: Seq<u8>, m: Self, k: nat) -> bool {
        s.len() >= 4
        && m.net_id as nat == le_value(s.subrange(0, 4))
        && k == 4
    }

    open spec fn parse_fails(s: Seq<u8>) -> bool {
        s.len() < 4
    }

    fn get_hash_code() -> (r: u16) {
        get_stable_hash_code16("Mirror.ObjectHideMessage")
    }

    fn serialize(&self, writer: &mut NetworkWriter) {
        writer.write_ushort(Self::get_hash_code());
        writer.write_uint(self.net_id);
        assert(writer@ =~= old(writer)@ + u16_bytes(Self::id_spec()) + self.body_spec());
    }

    fn deserialize(reader: &mut NetworkReader) -> (r: Result<Self, DecodeError>) {
        let ghost s = old(reader).rest();
        if reader.remaining() < 4 {
            return Err(DecodeError::EndOfData);
        }
        let ghost rb = *reader;
        let net_id = match reader.read_uint() {
            Ok(v) => v,
            Err(e) => return Err(e),
        };
        assert(rb.ahead(4) =~= s.subrange(0, 4));
        Ok(ObjectHideMessage { net_id })
    }
}

/// An object's changed state.
#[derive(Debug, PartialEq, Eq)]
pub struct EntityStateMessage {
    pub net_id: u32,
    pub payload: Vec<u8>,
}

impl EntityStateMessage {
    pub fn new(net_id: u32, payload: Vec<u8>) -> (r: EntityStateMessage)
        ensures
            r.net_id == net_id,
            r.payload@ == payload@,
    {
        EntityStateMessage { net_id, payload }
    }

    /// A copy of the payload.
    pub fn get_payload(&self) -> (r: Vec<u8>)
        ensures
            r@ == self.payload@,
    {
        let mut w = NetworkWriter::new();
        w.write_bytes(self.payload.as_slice());
        w.to_bytes()
    }
}

impl NetworkMessageTrait for EntityStateMessage {
    open spec fn id_spec() -> u16 {
        stable_hash16(encode_utf8("Mirror.EntityStateMessage"@))
    }

    open spec fn serializable(&self) -> bool {
        self.payload@.len() < u32::MAX
    }

    open spec fn body_spec(&self) -> Seq<u8> {
        u32_bytes(self.net_id) + payload_bytes(self.payload@)
    }

    open spec fn parsed(s: Seq<u8>, m: Self, k: nat) -> bool {
        s.len() >= 4
        && m.net_id as nat == le_value(s.subrange(0, 4))
        && (parse_payload(s.subrange(4, s.len() as int)) matches Some((p, j)) && m.payload@ == p && k == 4 + j)
    }

    open spec fn parse_fails(s: Seq<u8>) -> bool {
        s.len() < 4 || parse_payload(s.subrange(4, s.len() as int)) is None
    }

    fn get_hash_code() -> (r: u16) {
        get_stable_hash_code16("Mirror.EntityStateMessage")
    }

    fn serialize(&self, writer: &mut NetworkWriter) {
        writer.write_ushort(Self::get_hash_code());
        writer.write_uint(self.net_id);
        write_payload(writer, &self.payload);
        assert(writer@ =~= old(writer)@ + u16_bytes(Self::id_spec()) + self.body_spec());
    }

    fn deserialize(reader: &mut NetworkReader) -> (r: Result<Self, DecodeError>) {
        let ghost s = old(reader).rest();
        if reader.remaining() < 4 {
            return Err(DecodeError::EndOfData);
        }
        let ghost rb = *reader;
        let net_id = match reader.read_uint() {
            Ok(v) => v,
            Err(e) => return Err(e),
        };
        assert(rb.ahead(4) =~= s.subrange(0, 4));
        proof { lemma_rest_advance(old(reader), reader); }
        let payload = match read_payload(reader) {
            Ok(p) => p,
            Err(e) => return Err(e),
        };
        Ok(EntityStateMessage { net_id, payload })
    }
}

/// A ping; times are the bit patterns of 64-bit floats.
#[derive(Debug, Clone, Copy, PartialEq, Eq, Structural)]
pub struct NetworkPingMessage {
    pub local_time: u64,
    pub predicted_time_adjusted: u64,
}

impl NetworkPingMessage {
    pub fn new(local_time: u64, predicted_time_adjusted: u64) -> (r: NetworkPingMessage)
        ensures
            r.local_time == local_time,
            r.predicted_time_adjusted == predicted_time_adjusted,
    {
        NetworkPingMessage { local_time, predicted_time_adjusted }
    }
}

impl NetworkMessageTrait for NetworkPingMessage {
    open spec fn id_spec() -> u16 {
        stable_hash16(encode_utf8("Mirror.NetworkPingMessage"@))
    }

    open spec fn serializable(&self) -> bool {
        true
    }

    open spec fn body_spec(&self) -> Seq<u8> {
        u64_bytes(self.local_time) + u64_bytes(self.predicted_time_adjusted)
    }

    open spec fn parsed(s: Seq<u8>, m: Self, k: nat) -> bool {
        s.len() >= 16
        && m.local_time as nat == le_value(s.subrange(0, 8))
        && m.predicted_time_adjusted as nat == le_value(s.subrange(8, 16))
        && k == 16
    }

    open spec fn parse_fails(s: Seq<u8>) -> bool {
        s.len() < 16
    }

    fn get_hash_code() -> (r: u16) {
        get_stable_hash_code16("Mirror.NetworkPingMessage")
    }

    fn serialize(&self, writer: &mut NetworkWriter) {
        writer.write_ushort(Self::get_hash_code());
        writer.write_ulong(self.local_time);
        writer.write_ulong(self.predicted_time_adjusted);
        assert(writer@ =~= old(writer)@ + u16_bytes(Self::id_spec()) + self.body_spec());
    }

    fn deserialize(reader: &mut NetworkReader) -> (r: Result<Self, DecodeError>) {
        let ghost s = old(reader).rest();
        if reader.remaining() < 16 {
            return Err(DecodeError::EndOfData);
        }
        let ghost rb = *reader;
        let local_time = match reader.read_ulong() {
            Ok(v) => v,
            Err(e) => return Err(e),
        };
        assert(rb.ahead(8) =~= s.subrange(0, 8));
        let ghost rb = *reader;
        let predicted_time_adjusted = match reader.read_ulong() {
            Ok(v) => v,
            Err(e) => return Err(e),
        };
        assert(rb.ahead(8) =~= s.subrange(8, 16));
        Ok(NetworkPingMessage { local_time, predicted_time_adjusted })
    }
}

/// The answer to a ping; times are the bit patterns of 64-bit floats.
#[derive(Debug, Clone, Copy, PartialEq, Eq, Structural)]
pub struct NetworkPongMessage {
    pub local_time: u64,
    pub prediction_error_unadjusted: u64,
    pub prediction_error_adjusted: u64,
}

impl NetworkPongMessage {
    pub fn new(local_time: u64, prediction_error_unadjusted: u64, prediction_error_adjusted: u64) -> (r: NetworkPongMessage)
        ensures
            r.local_time == local_time,
            r.prediction_error_unadjusted == prediction_error_unadjusted,
            r.prediction_error_adjusted == prediction_error_adjusted,
    {
        NetworkPongMessage { local_time, prediction_error_unadjusted, prediction_error_adjusted }
    }
}

impl NetworkMessageTrait for NetworkPongMessage {
    open spec fn id_spec() -> u16 {
        stable_hash16(encode_utf8("Mirror.NetworkPongMessage"@))
    }

    open spec fn serializable(&self) -> bool {
        true
    }

    open spec fn body_spec(&self) -> Seq<u8> {
        u64_bytes(self.local_time) + u64_bytes(self.prediction_error_unadjusted) + u64_bytes(self.prediction_error_adjusted)
    }

    open spec fn parsed(s: Seq<u8>, m: Self, k: nat) -> bool {
        s.len() >= 24
        && m.local_time as nat == le_value(s.subrange(0, 8))
        && m.prediction_error_unadjusted as nat == le_value(s.subrange(8, 16))
        && m.prediction_error_adjusted as nat == le_value(s.subrange(16, 24))
        && k == 24
    }

    open spec fn parse_fails(s: Seq<u8>) -> bool {
        s.len() < 24
    }

    fn get_hash_code() -> (r: u16) {
        get_stable_hash_code16("Mirror.NetworkPongMessage")
    }

    fn serialize(&self, writer: &mut NetworkWriter) {
        writer.write_ushort(Self::get_hash_code());
        writer.write_ulong(self.local_time);
        writer.write_ulong(self.prediction_error_unadjusted);
        writer.write_ulong(self.prediction_error_adjusted);
        assert(writer@ =~= old(writer)@ + u16_bytes(Self::id_spec()) + self.body_spec());
    }

    fn deserialize(reader: &mut NetworkReader) -> (r: Result<Self, DecodeError>) {
        let ghost s = old(reader).rest();
        if reader.remaining() < 24 {
            return Err(DecodeError::EndOfData);
        }
        let ghost rb = *reader;
        let local_time = match reader.read_ulong() {
            Ok(v) => v,
            Err(e) => return Err(e),
        };
        assert(rb.ahead(8) =~= s.subrange(0, 8));
        let ghost rb = *reader;
        let prediction_error_unadjusted = match reader.read_ulong() {
            Ok(v) => v,
            Err(e) => return Err(e),
        };
        assert(rb.ahead(8) =~= s.subrange(8, 16));
        let ghost rb = *reader;
        let prediction_error_adjusted = match reader.read_ulong() {
            Ok(v) => v,
            Err(e) => return Err(e),
        };
        assert(rb.ahead(8) =~= s.subrange(16, 24));
        Ok(NetworkPongMessage { local_time, prediction_error_unadjusted, prediction_error_adjusted })
    }
}

} // verus!
