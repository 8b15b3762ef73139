//! Rows, payloads and responses of the SCADA entities.

use vstd::prelude::*;

use crate::json::{FloatBits, JsonValue};

verus! {

/// How a connection talks to its PLC or gateway.
#[derive(Clone, Copy, Debug, PartialEq, Eq, Structural)]
pub enum Protocol {
    Opcua,
    Mqtt,
    S7,
}

/// Last known state of a connection, kept by the SCADA gateway.
#[derive(Clone, Copy, Debug, PartialEq, Eq, Structural)]
pub enum ConnectionStatus {
    Unknown,
    Online,
    Offline,
    Error,
}

/// Nature of a SCADA point: a discrete order to the PLC, an analog set
/// point, or a read-only measure.
#[derive(Clone, Copy, Debug, PartialEq, Eq, Structural)]
pub enum TagKind {
    Telemando,
    Consigna,
    Medida,
}

#[derive(Clone, Copy, Debug, PartialEq, Eq, Structural)]
pub enum DataType {
    Bool,
    Int,
    Float,
    Enum,
}

#[derive(Clone, Copy, Debug, PartialEq, Eq, Structural)]
pub enum ReadWrite {
    Read,
    Write,
    ReadWrite,
}

#[derive(Clone, Copy, Debug, PartialEq, Eq, Structural)]
pub enum TriggerType {
    Once,
    Cron,
    CalendarEvent,
}

#[derive(Clone, Copy, Debug, PartialEq, Eq, Structural)]
pub enum InterlockOperator {
    Eq,
    Ne,
    Gt,
    Gte,
    Lt,
    Lte,
}

#[derive(Clone, Copy, Debug, PartialEq, Eq, Structural)]
pub enum InterlockAction {
    Block,
    Warn,
}

#[derive(Clone, Copy, Debug, PartialEq, Eq, Structural)]
pub enum ExecutionStatus {
    Pending,
    Sent,
    Ack,
    Failed,
    Timeout,
}

/// The name `{:?}` prints for a protocol.
pub open spec fn protocol_debug_name(p: Protocol) -> Seq<char> {
    match p {
        Protocol::Opcua => "Opcua"@,
        Protocol::Mqtt => "Mqtt"@,
        Protocol::S7 => "S7"@,
    }
}

impl Protocol {
    /// What `format!("{:?}", protocol)` gives.
    pub fn debug_name(&self) -> (s: &'static str)
        ensures
            s@ == protocol_debug_name(*self),
    {
        match self {
            Protocol::Opcua => "Opcua",
            Protocol::Mqtt => "Mqtt",
            Protocol::S7 => "S7",
        }
    }
}

/// Default of a schedule's `enabled`.
pub fn default_true() -> (b: bool)
    ensures
        b,
{
    true
}

/// Default of a tag's `read_write`.
pub fn default_read_write() -> (rw: ReadWrite)
    ensures
        rw == ReadWrite::Write,
{
    ReadWrite::Write
}

/// Default of an interlock's `action`.
pub fn default_interlock_action() -> (a: InterlockAction)
    ensures
        a == InterlockAction::Block,
{
    InterlockAction::Block
}

// ---------- Sites ----------

pub struct SiteRow {
    pub id: String,
    pub name: String,
    pub created_at: String,
}

pub struct SitePayload {
    pub name: String,
}

// ---------- Assets ----------
// Tree plant -> area -> equipment -> PLC through `parent_asset_id`.

pub struct AssetRow {
    pub id: String,
    pub site_id: String,
    pub parent_asset_id: Option<String>,
    pub name: String,
    pub kind: String,
    pub created_at: String,
}

pub struct AssetPayload {
    pub site_id: String,
    pub parent_asset_id: Option<String>,
    pub name: String,
    pub kind: String,
}

// ---------- Connections ----------

pub struct ConnectionRow {
    pub id: String,
    pub asset_id: String,
    pub name: String,
    pub protocol: Protocol,
    pub config: JsonValue,
    pub status: ConnectionStatus,
    pub last_seen: Option<String>,
    pub created_at: String,
}

pub struct ConnectionResponse {
    pub id: String,
    pub asset_id: String,
    pub name: String,
    pub protocol: Protocol,
    pub config: JsonValue,
    pub status: ConnectionStatus,
    pub last_seen: Option<String>,
}

impl From<ConnectionRow> for ConnectionResponse {
    fn from(row: ConnectionRow) -> (r: Self) {
        ConnectionResponse {
            id: row.id,
            asset_id: row.asset_id,
            name: row.name,
            protocol: row.protocol,
            config: row.config,
            status: row.status,
            last_seen: row.last_seen,
        }
    }
}

impl vstd::std_specs::convert::FromSpecImpl<ConnectionRow> for ConnectionResponse {
    open spec fn obeys_from_spec() -> bool {
        true
    }

    open spec fn from_spec(row: ConnectionRow) -> Self {
        ConnectionResponse {
            id: row.id,
            asset_id: row.asset_id,
            name: row.name,
            protocol: row.protocol,
            config: row.config,
            status: row.status,
            last_seen: row.last_seen,
        }
    }
}

/// `config` depends on the protocol:
/// - opcua: `{ "endpoint_url", "security_policy", "credentials_ref" }`
/// - mqtt: `{ "broker_url", "base_topic", "qos", "tls" }`
/// - s7: `{ "ip", "rack", "slot" }`
pub struct ConnectionPayload {
    pub asset_id: String,
    pub name: String,
    pub protocol: Protocol,
    pub config: JsonValue,
}

// ---------- Tags ----------

pub struct TagRow {
    pub id: String,
    pub connection_id: String,
    pub asset_id: String,
    pub name: String,
    pub description: String,
    pub tag_kind: TagKind,
    pub data_type: DataType,
    pub unit: Option<String>,
    pub address: JsonValue,
    pub read_write: ReadWrite,
    pub min_value: Option<FloatBits>,
    pub max_value: Option<FloatBits>,
    pub allowed_values: Option<JsonValue>,
    pub requires_sbo: bool,
    pub requires_ack: bool,
    pub created_at: String,
}

pub struct TagResponse {
    pub id: String,
    pub connection_id: String,
    pub asset_id: String,
    pub name: String,
    pub description: String,
    pub tag_kind: TagKind,
    pub data_type: DataType,
    pub unit: Option<String>,
    pub address: JsonValue,
    pub read_write: ReadWrite,
    pub min_value: Option<FloatBits>,
    pub max_value: Option<FloatBits>,
    pub allowed_values: Option<JsonValue>,
    pub requires_sbo: bool,
    pub requires_ack: bool,
}

impl From<TagRow> for TagResponse {
    fn from(row: TagRow) -> (r: Self) {
        TagResponse {
            id: row.id,
            connection_id: row.connection_id,
            asset_id: row.asset_id,
            name: row.name,
            description: row.description,
            tag_kind: row.tag_kind,
            data_type: row.data_type,
            unit: row.unit,
            address: row.address,
            read_write: row.read_write,
            min_value: row.min_value,
            max_value: row.max_value,
            allowed_values: row.allowed_values,
            requires_sbo: row.requires_sbo,
            requires_ack: row.requires_ack,
        }
    }
}

impl vstd::std_specs::convert::FromSpecImpl<TagRow> for TagResponse {
    open spec fn obeys_from_spec() -> bool {
        true
    }

    open spec fn from_spec(row: TagRow) -> Self {
        TagResponse {
            id: row.id,
            connection_id: row.connection_id,
            asset_id: row.asset_id,
            name: row.name,
            description: row.description,
            tag_kind: row.tag_kind,
            data_type: row.data_type,
            unit: row.unit,
            address: row.address,
            read_write: row.read_write,
            min_value: row.min_value,
            max_value: row.max_value,
            allowed_values: row.allowed_values,
            requires_sbo: row.requires_sbo,
            requires_ack: row.requires_ack,
        }
    }
}

/// `address` depends on the protocol of the tag's connection:
/// - opcua: `{ "node_id" }`
/// - mqtt: `{ "topic", "json_pointer" }`
/// - s7: `{ "db_number", "offset", "bit", "s7_type" }`
pub struct TagPayload {
    pub connection_id: String,
    pub asset_id: String,
    pub name: String,
    pub description: String,
    pub tag_kind: TagKind,
    pub data_type: DataType,
    pub unit: Option<String>,
    pub address: JsonValue,
    pub read_write: ReadWrite,
    pub min_value: Option<FloatBits>,
    pub max_value: Option<FloatBits>,
    pub allowed_values: Option<JsonValue>,
    pub requires_sbo: bool,
    pub requires_ack: bool,
}

// ---------- Schedules ----------
// A schedule points to a tag and the value to write on it.

pub struct ScheduleRow {
    pub id: String,
    pub name: String,
    pub tag_id: String,
    pub target_value: JsonValue,
    pub trigger_type: TriggerType,
    pub cron_expr: Option<String>,
    pub start_date: Option<String>,
    pub end_date: Option<String>,
    pub enabled: bool,
    pub requires_confirmation: bool,
    pub created_by: String,
    pub created_at: String,
}

pub struct ScheduleResponse {
    pub id: String,
    pub name: String,
    pub tag_id: String,
    pub target_value: JsonValue,
    pub trigger_type: TriggerType,
    pub cron_expr: Option<String>,
    pub start_date: Option<String>,
    pub end_date: Option<String>,
    pub enabled: bool,
    pub requires_confirmation: bool,
    pub created_by: String,
}

impl From<ScheduleRow> for ScheduleResponse {
    fn from(row: ScheduleRow) -> (r: Self) {
        ScheduleResponse {
            id: row.id,
            name: row.name,
            tag_id: row.tag_id,
            target_value: row.target_value,
            trigger_type: row.trigger_type,
            cron_expr: row.cron_expr,
            start_date: row.start_date,
            end_date: row.end_date,
            enabled: row.enabled,
            requires_confirmation: row.requires_confirmation,
            created_by: row.created_by,
        }
    }
}

impl vstd::std_specs::convert::FromSpecImpl<ScheduleRow> for ScheduleResponse {
    open spec fn obeys_from_spec() -> bool {
        true
    }

    open spec fn from_spec(row: ScheduleRow) -> Self {
        ScheduleResponse {
            id: row.id,
            name: row.name,
            tag_id: row.tag_id,
            target_value: row.target_value,
            trigger_type: row.trigger_type,
            cron_expr: row.cron_expr,
            start_date: row.start_date,
            end_date: row.end_date,
            enabled: row.enabled,
            requires_confirmation: row.requires_confirmation,
            created_by: row.created_by,
        }
    }
}

pub struct SchedulePayload {
    pub name: String,
    pub tag_id: String,
    /// Must fit the tag's `data_type`: a boolean, a number, or one of its
    /// `allowed_values` for an `enum` tag.
    pub target_value: JsonValue,
    pub trigger_type: TriggerType,
    pub cron_expr: Option<String>,
    pub start_date: Option<String>,
    pub end_date: Option<String>,
    pub enabled: bool,
    pub requires_confirmation: bool,
}

// ---------- Interlocks ----------

pub struct InterlockRow {
    pub id: String,
    pub tag_id: String,
    pub condition_tag_id: String,
    pub operator: InterlockOperator,
    pub condition_value: JsonValue,
    pub action: InterlockAction,
    pub created_at: String,
}

pub struct InterlockResponse {
    pub id: String,
    pub tag_id: String,
    pub condition_tag_id: String,
    pub operator: InterlockOperator,
    pub condition_value: JsonValue,
    pub action: InterlockAction,
}

impl From<InterlockRow> for InterlockResponse {
    fn from(row: InterlockRow) -> (r: Self) {
        InterlockResponse {
            id: row.id,
            tag_id: row.tag_id,
            condition_tag_id: row.condition_tag_id,
            operator: row.operator,
            condition_value: row.condition_value,
            action: row.action,
        }
    }
}

impl vstd::std_specs::convert::FromSpecImpl<InterlockRow> for InterlockResponse {
    open spec fn obeys_from_spec() -> bool {
        true
    }

    open spec fn from_spec(row: InterlockRow) -> Self {
        InterlockResponse {
            id: row.id,
            tag_id: row.tag_id,
            condition_tag_id: row.condition_tag_id,
            operator: row.operator,
            condition_value: row.condition_value,
            action: row.action,
        }
    }
}

pub struct InterlockPayload {
    pub tag_id: String,
    pub condition_tag_id: String,
    pub operator: InterlockOperator,
    pub condition_value: JsonValue,
    pub action: InterlockAction,
}

// ---------- Command executions ----------
// Audit of every attempt to write a tag (scheduled or manual).

pub struct CommandExecutionRow {
    pub id: String,
    pub schedule_id: Option<String>,
    pub tag_id: String,
    pub requested_value: JsonValue,
    pub requested_by: String,
    pub status: ExecutionStatus,
    pub sent_at: Option<String>,
    pub ack_at: Option<String>,
    pub response: Option<JsonValue>,
    pub error_message: Option<String>,
    pub latency_ms: Option<i64>,
    pub created_at: String,
}

pub struct CommandExecutionResponse {
    pub id: String,
    pub schedule_id: Option<String>,
    pub tag_id: String,
    pub requested_value: JsonValue,
    pub requested_by: String,
    pub status: ExecutionStatus,
    pub sent_at: Option<String>,
    pub ack_at: Option<String>,
    pub response: Option<JsonValue>,
    pub error_message: Option<String>,
    pub latency_ms: Option<i64>,
}

impl From<CommandExecutionRow> for CommandExecutionResponse {
    fn from(row: CommandExecutionRow) -> (r: Self) {
        CommandExecutionResponse {
            id: row.id,
            schedule_id: row.schedule_id,
            tag_id: row.tag_id,
            requested_value: row.requested_value,
            requested_by: row.requested_by,
            status: row.status,
            sent_at: row.sent_at,
            ack_at: row.ack_at,
            response: row.response,
            error_message: row.error_message,
            latency_ms: row.latency_ms,
        }
    }
}

impl vstd::std_specs::convert::FromSpecImpl<CommandExecutionRow> for CommandExecutionResponse {
    open spec fn obeys_from_spec() -> bool {
        true
    }

    open spec fn from_spec(row: CommandExecutionRow) -> Self {
        CommandExecutionResponse {
            id: row.id,
            schedule_id: row.schedule_id,
            tag_id: row.tag_id,
            requested_value: row.requested_value,
            requested_by: row.requested_by,
            status: row.status,
            sent_at: row.sent_at,
            ack_at: row.ack_at,
            response: row.response,
            error_message: row.error_message,
            latency_ms: row.latency_ms,
        }
    }
}

/// A manual command on a tag (outside a schedule), e.g. from a button of the UI.
pub struct CommandExecutionPayload {
    pub tag_id: String,
    pub requested_value: JsonValue,
}

} // verus!
