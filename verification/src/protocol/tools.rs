//! The fixed registry of tools that the router may invoke, with their
//! privilege, privacy and payload bounds.
use super::errors::{fail, is_error, ContractError, ContractErrorCode};
use super::router::PROTOCOL_VERSION_V1;
use crate::text::{concat, str_eq};
use vstd::prelude::*;

verus! {

pub const MAX_TOOL_INPUT_BYTES_V1: u32 = 65_536;

pub const MAX_TOOL_OUTPUT_BYTES_V1: u32 = 262_144;

pub const TOOL_INPUT_SCHEMA_REF: &'static str =
    "schemas/tools/tool-invocation-v1.schema.json#/$defs/tool_request";

pub const TOOL_OUTPUT_SCHEMA_REF: &'static str =
    "schemas/tools/tool-invocation-v1.schema.json#/$defs/tool_result";

#[derive(Debug, Clone, Copy, PartialEq, Eq, Structural)]
pub enum ToolArea {
    Commands,
    Packages,
    Services,
    Logs,
    Resources,
    NetworkProcesses,
    FilesSystem,
}

#[derive(Debug, Clone, Copy, PartialEq, Eq, Structural)]
pub enum PrivilegeClass {
    User,
    ElevatedBroker,
    RootBroker,
}

#[derive(Debug, Clone, Copy, PartialEq, Eq, Structural)]
pub enum PrivacyClass {
    Public,
    Session,
    HostSensitive,
    Restricted,
    Secret,
}

#[derive(Debug, Clone, Copy, PartialEq, Eq, Structural)]
pub enum CancellationPolicy {
    NotCancellable,
    BestEffort,
    MustCancel,
}

#[derive(Debug, Clone, Copy, PartialEq, Eq, PartialOrd, Ord, Hash, Structural)]
pub enum ToolName {
    CommandExists,
    CommandLookup,
    CommandHelp,
    CommandHistory,
    AptSearch,
    AptPackageInfo,
    AptPackagePolicy,
    AptSimulateInstall,
    AptInstall,
    AptRemove,
    AptUpdate,
    AptUpgrade,
    PackageOwnsFile,
    ServiceList,
    ServiceStatus,
    ServiceStart,
    ServiceStop,
    ServiceRestart,
    ServiceEnable,
    JournalRecent,
    JournalErrors,
    KernelMessages,
    CpuStatus,
    MemoryStatus,
    SwapStatus,
    FilesystemStatus,
    DiskStatus,
    DiskHealth,
    TemperatureStatus,
    NetworkStatus,
    NetworkInterfaces,
    ListeningPorts,
    ProcessList,
    ProcessDetails,
    ProcessKill,
    FileExists,
    FileType,
    FilePermissions,
    DirectoryContents,
    DiskUsage,
    OsInformation,
    HardwareInformation,
}

/// Position of a tool in `ToolName::ALL`.
pub open spec fn tool_index(n: ToolName) -> int {
    match n {
        ToolName::CommandExists => 0,
        ToolName::CommandLookup => 1,
        ToolName::CommandHelp => 2,
        ToolName::CommandHistory => 3,
        ToolName::AptSearch => 4,
        ToolName::AptPackageInfo => 5,
        ToolName::AptPackagePolicy => 6,
        ToolName::AptSimulateInstall => 7,
        ToolName::AptInstall => 8,
        ToolName::AptRemove => 9,
        ToolName::AptUpdate => 10,
        ToolName::AptUpgrade => 11,
        ToolName::PackageOwnsFile => 12,
        ToolName::ServiceList => 13,
        ToolName::ServiceStatus => 14,
        ToolName::ServiceStart => 15,
        ToolName::ServiceStop => 16,
        ToolName::ServiceRestart => 17,
        ToolName::ServiceEnable => 18,
        ToolName::JournalRecent => 19,
        ToolName::JournalErrors => 20,
        ToolName::KernelMessages => 21,
        ToolName::CpuStatus => 22,
        ToolName::MemoryStatus => 23,
        ToolName::SwapStatus => 24,
        ToolName::FilesystemStatus => 25,
        ToolName::DiskStatus => 26,
        ToolName::DiskHealth => 27,
        ToolName::TemperatureStatus => 28,
        ToolName::NetworkStatus => 29,
        ToolName::NetworkInterfaces => 30,
        ToolName::ListeningPorts => 31,
        ToolName::ProcessList => 32,
        ToolName::ProcessDetails => 33,
        ToolName::ProcessKill => 34,
        ToolName::FileExists => 35,
        ToolName::FileType => 36,
        ToolName::FilePermissions => 37,
        ToolName::DirectoryContents => 38,
        ToolName::DiskUsage => 39,
        ToolName::OsInformation => 40,
        ToolName::HardwareInformation => 41,
    }
}

/// The wire name of a tool.
pub open spec fn tool_name_text(n: ToolName) -> Seq<char> {
    match n {
        ToolName::CommandExists => "command_exists"@,
        ToolName::CommandLookup => "command_lookup"@,
        ToolName::CommandHelp => "command_help"@,
        ToolName::CommandHistory => "command_history"@,
        ToolName::AptSearch => "apt_search"@,
        ToolName::AptPackageInfo => "apt_package_info"@,
        ToolName::AptPackagePolicy => "apt_package_policy"@,
        ToolName::AptSimulateInstall => "apt_simulate_install"@,
        ToolName::AptInstall => "apt_install"@,
        ToolName::AptRemove => "apt_remove"@,
        ToolName::AptUpdate => "apt_update"@,
        ToolName::AptUpgrade => "apt_upgrade"@,
        ToolName::PackageOwnsFile => "package_owns_file"@,
        ToolName::ServiceList => "service_list"@,
        ToolName::ServiceStatus => "service_status"@,
        ToolName::ServiceStart => "service_start"@,
        ToolName::ServiceStop => "service_stop"@,
        ToolName::ServiceRestart => "service_restart"@,
        ToolName::ServiceEnable => "service_enable"@,
        ToolName::JournalRecent => "journal_recent"@,
        ToolName::JournalErrors => "journal_errors"@,
        ToolName::KernelMessages => "kernel_messages"@,
        ToolName::CpuStatus => "cpu_status"@,
        ToolName::MemoryStatus => "memory_status"@,
        ToolName::SwapStatus => "swap_status"@,
        ToolName::FilesystemStatus => "filesystem_status"@,
        ToolName::DiskStatus => "disk_status"@,
        ToolName::DiskHealth => "disk_health"@,
        ToolName::TemperatureStatus => "temperature_status"@,
        ToolName::NetworkStatus => "network_status"@,
        ToolName::NetworkInterfaces => "network_interfaces"@,
        ToolName::ListeningPorts => "listening_ports"@,
        ToolName::ProcessList => "process_list"@,
        ToolName::ProcessDetails => "process_details"@,
        ToolName::ProcessKill => "process_kill"@,
        ToolName::FileExists => "file_exists"@,
        ToolName::FileType => "file_type"@,
        ToolName::FilePermissions => "file_permissions"@,
        ToolName::DirectoryContents => "directory_contents"@,
        ToolName::DiskUsage => "disk_usage"@,
        ToolName::OsInformation => "os_information"@,
        ToolName::HardwareInformation => "hardware_information"@,
    }
}

impl ToolName {
    pub const ALL: [ToolName; 42] = [
        ToolName::CommandExists,
        ToolName::CommandLookup,
        ToolName::CommandHelp,
        ToolName::CommandHistory,
        ToolName::AptSearch,
        ToolName::AptPackageInfo,
        ToolName::AptPackagePolicy,
        ToolName::AptSimulateInstall,
        ToolName::AptInstall,
        ToolName::AptRemove,
        ToolName::AptUpdate,
        ToolName::AptUpgrade,
        ToolName::PackageOwnsFile,
        ToolName::ServiceList,
        ToolName::ServiceStatus,
        ToolName::ServiceStart,
        ToolName::ServiceStop,
        ToolName::ServiceRestart,
        ToolName::ServiceEnable,
        ToolName::JournalRecent,
        ToolName::JournalErrors,
        ToolName::KernelMessages,
        ToolName::CpuStatus,
        ToolName::MemoryStatus,
        ToolName::SwapStatus,
        ToolName::FilesystemStatus,
        ToolName::DiskStatus,
        ToolName::DiskHealth,
        ToolName::TemperatureStatus,
        ToolName::NetworkStatus,
        ToolName::NetworkInterfaces,
        ToolName::ListeningPorts,
        ToolName::ProcessList,
        ToolName::ProcessDetails,
        ToolName::ProcessKill,
        ToolName::FileExists,
        ToolName::FileType,
        ToolName::FilePermissions,
        ToolName::DirectoryContents,
        ToolName::DiskUsage,
        ToolName::OsInformation,
        ToolName::HardwareInformation,
    ];

    /// The position of this tool in `ALL`.
    pub fn index(self) -> (r: usize)
        ensures
            r == tool_index(self),
    {
        match self {
            ToolName::CommandExists => 0,
            ToolName::CommandLookup => 1,
            ToolName::CommandHelp => 2,
            ToolName::CommandHistory => 3,
            ToolName::AptSearch => 4,
            ToolName::AptPackageInfo => 5,
            ToolName::AptPackagePolicy => 6,
            ToolName::AptSimulateInstall => 7,
            ToolName::AptInstall => 8,
            ToolName::AptRemove => 9,
            ToolName::AptUpdate => 10,
            ToolName::AptUpgrade => 11,
            ToolName::PackageOwnsFile => 12,
            ToolName::ServiceList => 13,
            ToolName::ServiceStatus => 14,
            ToolName::ServiceStart => 15,
            ToolName::ServiceStop => 16,
            ToolName::ServiceRestart => 17,
            ToolName::ServiceEnable => 18,
            ToolName::JournalRecent => 19,
            ToolName::JournalErrors => 20,
            ToolName::KernelMessages => 21,
            ToolName::CpuStatus => 22,
            ToolName::MemoryStatus => 23,
            ToolName::SwapStatus => 24,
            ToolName::FilesystemStatus => 25,
            ToolName::DiskStatus => 26,
            ToolName::DiskHealth => 27,
            ToolName::TemperatureStatus => 28,
            ToolName::NetworkStatus => 29,
            ToolName::NetworkInterfaces => 30,
            ToolName::ListeningPorts => 31,
            ToolName::ProcessList => 32,
            ToolName::ProcessDetails => 33,
            ToolName::ProcessKill => 34,
            ToolName::FileExists => 35,
            ToolName::FileType => 36,
            ToolName::FilePermissions => 37,
            ToolName::DirectoryContents => 38,
            ToolName::DiskUsage => 39,
            ToolName::OsInformation => 40,
            ToolName::HardwareInformation => 41,
        }
    }

    pub fn as_str(self) -> (r: &'static str)
        ensures
            r@ == tool_name_text(self),
    {
        match self {
            ToolName::CommandExists => "command_exists",
            ToolName::CommandLookup => "command_lookup",
            ToolName::CommandHelp => "command_help",
            ToolName::CommandHistory => "command_history",
            ToolName::AptSearch => "apt_search",
            ToolName::AptPackageInfo => "apt_package_info",
            ToolName::AptPackagePolicy => "apt_package_policy",
            ToolName::AptSimulateInstall => "apt_simulate_install",
            ToolName::AptInstall => "apt_install",
            ToolName::AptRemove => "apt_remove",
            ToolName::AptUpdate => "apt_update",
            ToolName::AptUpgrade => "apt_upgrade",
            ToolName::PackageOwnsFile => "package_owns_file",
            ToolName::ServiceList => "service_list",
            ToolName::ServiceStatus => "service_status",
            ToolName::ServiceStart => "service_start",
            ToolName::ServiceStop => "service_stop",
            ToolName::ServiceRestart => "service_restart",
            ToolName::ServiceEnable => "service_enable",
            ToolName::JournalRecent => "journal_recent",
            ToolName::JournalErrors => "journal_errors",
            ToolName::KernelMessages => "kernel_messages",
            ToolName::CpuStatus => "cpu_status",
            ToolName::MemoryStatus => "memory_status",
            ToolName::SwapStatus => "swap_status",
            ToolName::FilesystemStatus => "filesystem_status",
            ToolName::DiskStatus => "disk_status",
            ToolName::DiskHealth => "disk_health",
            ToolName::TemperatureStatus => "temperature_status",
            ToolName::NetworkStatus => "network_status",
            ToolName::NetworkInterfaces => "network_interfaces",
            ToolName::ListeningPorts => "listening_ports",
            ToolName::ProcessList => "process_list",
            ToolName::ProcessDetails => "process_details",
            ToolName::ProcessKill => "process_kill",
            ToolName::FileExists => "file_exists",
            ToolName::FileType => "file_type",
            ToolName::FilePermissions => "file_permissions",
            ToolName::DirectoryContents => "directory_contents",
            ToolName::DiskUsage => "disk_usage",
            ToolName::OsInformation => "os_information",
            ToolName::HardwareInformation => "hardware_information",
        }
    }
}

/// `ToolName::ALL` as a sequence.
pub open spec fn all_tools() -> Seq<ToolName> {
    seq![
        ToolName::CommandExists,
        ToolName::CommandLookup,
        ToolName::CommandHelp,
        ToolName::CommandHistory,
        ToolName::AptSearch,
        ToolName::AptPackageInfo,
        ToolName::AptPackagePolicy,
        ToolName::AptSimulateInstall,
        ToolName::AptInstall,
        ToolName::AptRemove,
        ToolName::AptUpdate,
        ToolName::AptUpgrade,
        ToolName::PackageOwnsFile,
        ToolName::ServiceList,
        ToolName::ServiceStatus,
        ToolName::ServiceStart,
        ToolName::ServiceStop,
        ToolName::ServiceRestart,
        ToolName::ServiceEnable,
        ToolName::JournalRecent,
        ToolName::JournalErrors,
        ToolName::KernelMessages,
        ToolName::CpuStatus,
        ToolName::MemoryStatus,
        ToolName::SwapStatus,
        ToolName::FilesystemStatus,
        ToolName::DiskStatus,
        ToolName::DiskHealth,
        ToolName::TemperatureStatus,
        ToolName::NetworkStatus,
        ToolName::NetworkInterfaces,
        ToolName::ListeningPorts,
        ToolName::ProcessList,
        ToolName::ProcessDetails,
        ToolName::ProcessKill,
        ToolName::FileExists,
        ToolName::FileType,
        ToolName::FilePermissions,
        ToolName::DirectoryContents,
        ToolName::DiskUsage,
        ToolName::OsInformation,
        ToolName::HardwareInformation,
    ]
}

/// The tool at position `k` of `ToolName::ALL`.
pub fn tool_at(k: usize) -> (r: ToolName)
    requires
        k < 42,
    ensures
        r == all_tools()[k as int],
{
    match k {
        0 => ToolName::CommandExists,
        1 => ToolName::CommandLookup,
        2 => ToolName::CommandHelp,
        3 => ToolName::CommandHistory,
        4 => ToolName::AptSearch,
        5 => ToolName::AptPackageInfo,
        6 => ToolName::AptPackagePolicy,
        7 => ToolName::AptSimulateInstall,
        8 => ToolName::AptInstall,
        9 => ToolName::AptRemove,
        10 => ToolName::AptUpdate,
        11 => ToolName::AptUpgrade,
        12 => ToolName::PackageOwnsFile,
        13 => ToolName::ServiceList,
        14 => ToolName::ServiceStatus,
        15 => ToolName::ServiceStart,
        16 => ToolName::ServiceStop,
        17 => ToolName::ServiceRestart,
        18 => ToolName::ServiceEnable,
        19 => ToolName::JournalRecent,
        20 => ToolName::JournalErrors,
        21 => ToolName::KernelMessages,
        22 => ToolName::CpuStatus,
        23 => ToolName::MemoryStatus,
        24 => ToolName::SwapStatus,
        25 => ToolName::FilesystemStatus,
        26 => ToolName::DiskStatus,
        27 => ToolName::DiskHealth,
        28 => ToolName::TemperatureStatus,
        29 => ToolName::NetworkStatus,
        30 => ToolName::NetworkInterfaces,
        31 => ToolName::ListeningPorts,
        32 => ToolName::ProcessList,
        33 => ToolName::ProcessDetails,
        34 => ToolName::ProcessKill,
        35 => ToolName::FileExists,
        36 => ToolName::FileType,
        37 => ToolName::FilePermissions,
        38 => ToolName::DirectoryContents,
        39 => ToolName::DiskUsage,
        40 => ToolName::OsInformation,
        _ => ToolName::HardwareInformation,
    }
}

/// Each tool sits at its own index of `all_tools()`, which lists every tool once.
pub proof fn lemma_all_tools_index()
    ensures
        all_tools().len() == 42,
        forall|n: ToolName| 0 <= #[trigger] tool_index(n) < 42,
        forall|n: ToolName| all_tools()[#[trigger] tool_index(n)] == n,
        forall|i: int| 0 <= i < 42 ==> tool_index(#[trigger] all_tools()[i]) == i,
{
    assert(all_tools().len() == 42);
    assert forall|n: ToolName| all_tools()[#[trigger] tool_index(n)] == n by {
        match n {
            ToolName::CommandExists => {},
            ToolName::CommandLookup => {},
            ToolName::CommandHelp => {},
            ToolName::CommandHistory => {},
            ToolName::AptSearch => {},
            ToolName::AptPackageInfo => {},
            ToolName::AptPackagePolicy => {},
            ToolName::AptSimulateInstall => {},
            ToolName::AptInstall => {},
            ToolName::AptRemove => {},
            ToolName::AptUpdate => {},
            ToolName::AptUpgrade => {},
            ToolName::PackageOwnsFile => {},
            ToolName::ServiceList => {},
            ToolName::ServiceStatus => {},
            ToolName::ServiceStart => {},
            ToolName::ServiceStop => {},
            ToolName::ServiceRestart => {},
            ToolName::ServiceEnable => {},
            ToolName::JournalRecent => {},
            ToolName::JournalErrors => {},
            ToolName::KernelMessages => {},
            ToolName::CpuStatus => {},
            ToolName::MemoryStatus => {},
            ToolName::SwapStatus => {},
            ToolName::FilesystemStatus => {},
            ToolName::DiskStatus => {},
            ToolName::DiskHealth => {},
            ToolName::TemperatureStatus => {},
            ToolName::NetworkStatus => {},
            ToolName::NetworkInterfaces => {},
            ToolName::ListeningPorts => {},
            ToolName::ProcessList => {},
            ToolName::ProcessDetails => {},
            ToolName::ProcessKill => {},
            ToolName::FileExists => {},
            ToolName::FileType => {},
            ToolName::FilePermissions => {},
            ToolName::DirectoryContents => {},
            ToolName::DiskUsage => {},
            ToolName::OsInformation => {},
            ToolName::HardwareInformation => {},
        }
    }
    assert forall|i: int| 0 <= i < 42 implies tool_index(#[trigger] all_tools()[i]) == i by {
        assert(all_tools()[tool_index(all_tools()[i])] == all_tools()[i]);
        if tool_index(all_tools()[i]) != i {
            let k = tool_index(all_tools()[i]);
            assert(0 <= k < 42);
            assert(all_tools()[k] == all_tools()[i]);
            assert(false) by {
                assert(all_tools() =~= seq![ToolName::CommandExists, ToolName::CommandLookup, ToolName::CommandHelp, ToolName::CommandHistory, ToolName::AptSearch, ToolName::AptPackageInfo, ToolName::AptPackagePolicy, ToolName::AptSimulateInstall, ToolName::AptInstall, ToolName::AptRemove, ToolName::AptUpdate, ToolName::AptUpgrade, ToolName::PackageOwnsFile, ToolName::ServiceList, ToolName::ServiceStatus, ToolName::ServiceStart, ToolName::ServiceStop, ToolName::ServiceRestart, ToolName::ServiceEnable, ToolName::JournalRecent, ToolName::JournalErrors, ToolName::KernelMessages, ToolName::CpuStatus, ToolName::MemoryStatus, ToolName::SwapStatus, ToolName::FilesystemStatus, ToolName::DiskStatus, ToolName::DiskHealth, ToolName::TemperatureStatus, ToolName::NetworkStatus, ToolName::NetworkInterfaces, ToolName::ListeningPorts, ToolName::ProcessList, ToolName::ProcessDetails, ToolName::ProcessKill, ToolName::FileExists, ToolName::FileType, ToolName::FilePermissions, ToolName::DirectoryContents, ToolName::DiskUsage, ToolName::OsInformation, ToolName::HardwareInformation]);
            }
        }
    }
}

pub open spec fn inferred_area_spec(name: ToolName) -> ToolArea {
    match name {
        ToolName::CommandExists | ToolName::CommandLookup | ToolName::CommandHelp
        | ToolName::CommandHistory => ToolArea::Commands,
        ToolName::AptSearch | ToolName::AptPackageInfo | ToolName::AptPackagePolicy
        | ToolName::AptSimulateInstall | ToolName::AptInstall | ToolName::AptRemove
        | ToolName::AptUpdate | ToolName::AptUpgrade | ToolName::PackageOwnsFile => ToolArea::Packages,
        ToolName::ServiceList | ToolName::ServiceStatus | ToolName::ServiceStart
        | ToolName::ServiceStop | ToolName::ServiceRestart | ToolName::ServiceEnable => ToolArea::Services,
        ToolName::JournalRecent | ToolName::JournalErrors | ToolName::KernelMessages => ToolArea::Logs,
        ToolName::CpuStatus | ToolName::MemoryStatus | ToolName::SwapStatus
        | ToolName::FilesystemStatus | ToolName::DiskStatus | ToolName::DiskHealth
        | ToolName::TemperatureStatus => ToolArea::Resources,
        ToolName::NetworkStatus | ToolName::NetworkInterfaces | ToolName::ListeningPorts
        | ToolName::ProcessList | ToolName::ProcessDetails
        | ToolName::ProcessKill => ToolArea::NetworkProcesses,
        ToolName::FileExists | ToolName::FileType | ToolName::FilePermissions
        | ToolName::DirectoryContents | ToolName::DiskUsage | ToolName::OsInformation
        | ToolName::HardwareInformation => ToolArea::FilesSystem,
    }
}

fn inferred_area(name: ToolName) -> (r: ToolArea)
    ensures
        r == inferred_area_spec(name),
{
    match name {
        ToolName::CommandExists | ToolName::CommandLookup | ToolName::CommandHelp
        | ToolName::CommandHistory => ToolArea::Commands,
        ToolName::AptSearch | ToolName::AptPackageInfo | ToolName::AptPackagePolicy
        | ToolName::AptSimulateInstall | ToolName::AptInstall | ToolName::AptRemove
        | ToolName::AptUpdate | ToolName::AptUpgrade | ToolName::PackageOwnsFile => ToolArea::Packages,
        ToolName::ServiceList | ToolName::ServiceStatus | ToolName::ServiceStart
        | ToolName::ServiceStop | ToolName::ServiceRestart | ToolName::ServiceEnable => ToolArea::Services,
        ToolName::JournalRecent | ToolName::JournalErrors | ToolName::KernelMessages => ToolArea::Logs,
        ToolName::CpuStatus | ToolName::MemoryStatus | ToolName::SwapStatus
        | ToolName::FilesystemStatus | ToolName::DiskStatus | ToolName::DiskHealth
        | ToolName::TemperatureStatus => ToolArea::Resources,
        ToolName::NetworkStatus | ToolName::NetworkInterfaces | ToolName::ListeningPorts
        | ToolName::ProcessList | ToolName::ProcessDetails
        | ToolName::ProcessKill => ToolArea::NetworkProcesses,
        ToolName::FileExists | ToolName::FileType | ToolName::FilePermissions
        | ToolName::DirectoryContents | ToolName::DiskUsage | ToolName::OsInformation
        | ToolName::HardwareInformation => ToolArea::FilesSystem,
    }
}

pub open spec fn inferred_privacy_spec(name: ToolName) -> PrivacyClass {
    match name {
        ToolName::CommandHistory => PrivacyClass::Session,
        ToolName::JournalRecent | ToolName::JournalErrors | ToolName::KernelMessages
        | ToolName::NetworkStatus | ToolName::NetworkInterfaces | ToolName::ListeningPorts
        | ToolName::ProcessList | ToolName::ProcessDetails | ToolName::ProcessKill
        | ToolName::FilePermissions | ToolName::DirectoryContents | ToolName::DiskUsage
        | ToolName::HardwareInformation | ToolName::DiskHealth
        | ToolName::TemperatureStatus => PrivacyClass::HostSensitive,
        ToolName::AptInstall | ToolName::AptRemove | ToolName::AptUpdate | ToolName::AptUpgrade
        | ToolName::ServiceStart | ToolName::ServiceStop | ToolName::ServiceRestart
        | ToolName::ServiceEnable => PrivacyClass::Restricted,
        _ => PrivacyClass::Public,
    }
}

fn inferred_privacy(name: ToolName) -> (r: PrivacyClass)
    ensures
        r == inferred_privacy_spec(name),
{
    match name {
        ToolName::CommandHistory => PrivacyClass::Session,
        ToolName::JournalRecent | ToolName::JournalErrors | ToolName::KernelMessages
        | ToolName::NetworkStatus | ToolName::NetworkInterfaces | ToolName::ListeningPorts
        | ToolName::ProcessList | ToolName::ProcessDetails | ToolName::ProcessKill
        | ToolName::FilePermissions | ToolName::DirectoryContents | ToolName::DiskUsage
        | ToolName::HardwareInformation | ToolName::DiskHealth
        | ToolName::TemperatureStatus => PrivacyClass::HostSensitive,
        ToolName::AptInstall | ToolName::AptRemove | ToolName::AptUpdate | ToolName::AptUpgrade
        | ToolName::ServiceStart | ToolName::ServiceStop | ToolName::ServiceRestart
        | ToolName::ServiceEnable => PrivacyClass::Restricted,
        _ => PrivacyClass::Public,
    }
}

#[derive(Debug, Clone, PartialEq, Eq)]
pub struct ToolDefinition {
    pub name: ToolName,
    pub area: ToolArea,
    pub privilege_class: PrivilegeClass,
    pub privacy_class: PrivacyClass,
    pub input_schema_ref: String,
    pub output_schema_ref: String,
    pub provenance_required: bool,
    pub timeout_ms: u32,
    pub cancellation_policy: CancellationPolicy,
    pub max_input_bytes: u32,
    pub max_output_bytes: u32,
}

/// The area, privilege, privacy, timeout and cancellation policy a tool is registered with.
pub open spec fn tool_class(
    name: ToolName,
) -> (ToolArea, PrivilegeClass, PrivacyClass, u32, CancellationPolicy) {
    match name {
        ToolName::AptInstall | ToolName::AptRemove | ToolName::AptUpdate | ToolName::AptUpgrade => (
            ToolArea::Packages,
            PrivilegeClass::RootBroker,
            PrivacyClass::Restricted,
            120_000,
            CancellationPolicy::BestEffort,
        ),
        ToolName::ServiceStart | ToolName::ServiceStop | ToolName::ServiceRestart
        | ToolName::ServiceEnable => (
            ToolArea::Services,
            PrivilegeClass::RootBroker,
            PrivacyClass::Restricted,
            30_000,
            CancellationPolicy::BestEffort,
        ),
        ToolName::ProcessKill => (
            ToolArea::NetworkProcesses,
            PrivilegeClass::ElevatedBroker,
            PrivacyClass::HostSensitive,
            10_000,
            CancellationPolicy::BestEffort,
        ),
        ToolName::DiskHealth | ToolName::TemperatureStatus | ToolName::JournalRecent
        | ToolName::JournalErrors | ToolName::KernelMessages | ToolName::ProcessDetails => (
            inferred_area_spec(name),
            PrivilegeClass::ElevatedBroker,
            PrivacyClass::HostSensitive,
            10_000,
            CancellationPolicy::MustCancel,
        ),
        _ => (
            inferred_area_spec(name),
            PrivilegeClass::User,
            inferred_privacy_spec(name),
            5_000,
            CancellationPolicy::MustCancel,
        ),
    }
}

/// `d` is the registration of `name` in the required v1 registry.
pub open spec fn is_required_definition(d: ToolDefinition, name: ToolName) -> bool {
    let c = tool_class(name);
    &&& d.name == name
    &&& d.area == c.0
    &&& d.privilege_class == c.1
    &&& d.privacy_class == c.2
    &&& d.timeout_ms == c.3
    &&& d.cancellation_policy == c.4
    &&& d.input_schema_ref@ == TOOL_INPUT_SCHEMA_REF@
    &&& d.output_schema_ref@ == TOOL_OUTPUT_SCHEMA_REF@
    &&& d.provenance_required
    &&& d.max_input_bytes == MAX_TOOL_INPUT_BYTES_V1
    &&& d.max_output_bytes == MAX_TOOL_OUTPUT_BYTES_V1
}

fn required_definition(name: ToolName) -> (r: ToolDefinition)
    ensures
        is_required_definition(r, name),
{
    let (area, privilege_class, privacy_class, timeout_ms, cancellation_policy) = match name {
        ToolName::AptInstall | ToolName::AptRemove | ToolName::AptUpdate | ToolName::AptUpgrade => (
            ToolArea::Packages,
            PrivilegeClass::RootBroker,
            PrivacyClass::Restricted,
            120_000,
            CancellationPolicy::BestEffort,
        ),
        ToolName::ServiceStart | ToolName::ServiceStop | ToolName::ServiceRestart
        | ToolName::ServiceEnable => (
            ToolArea::Services,
            PrivilegeClass::RootBroker,
            PrivacyClass::Restricted,
            30_000,
            CancellationPolicy::BestEffort,
        ),
        ToolName::ProcessKill => (
            ToolArea::NetworkProcesses,
            PrivilegeClass::ElevatedBroker,
            PrivacyClass::HostSensitive,
            10_000,
            CancellationPolicy::BestEffort,
        ),
        ToolName::DiskHealth | ToolName::TemperatureStatus | ToolName::JournalRecent
        | ToolName::JournalErrors | ToolName::KernelMessages | ToolName::ProcessDetails => (
            inferred_area(name),
            PrivilegeClass::ElevatedBroker,
            PrivacyClass::HostSensitive,
            10_000,
            CancellationPolicy::MustCancel,
        ),
        _ => (
            inferred_area(name),
            PrivilegeClass::User,
            inferred_privacy(name),
            5_000,
            CancellationPolicy::MustCancel,
        ),
    };
    ToolDefinition {
        name,
        area,
        privilege_class,
        privacy_class,
        input_schema_ref: TOOL_INPUT_SCHEMA_REF.to_owned(),
        output_schema_ref: TOOL_OUTPUT_SCHEMA_REF.to_owned(),
        provenance_required: true,
        timeout_ms,
        cancellation_policy,
        max_input_bytes: MAX_TOOL_INPUT_BYTES_V1,
        max_output_bytes: MAX_TOOL_OUTPUT_BYTES_V1,
    }
}

#[derive(Debug, Clone, PartialEq, Eq)]
pub struct ToolRegistry {
    pub version: String,
    pub tools: Vec<ToolDefinition>,
}

/// Tool `i` repeats the name of an earlier tool.
pub open spec fn duplicated(tools: Seq<ToolDefinition>, i: int) -> bool {
    exists|j: int| 0 <= j < i && tools[j].name == tools[i].name
}

/// Tool `i` is a repeat or declares a zero payload bound.
pub open spec fn tool_rejected(tools: Seq<ToolDefinition>, i: int) -> bool {
    duplicated(tools, i) || tools[i].max_input_bytes == 0 || tools[i].max_output_bytes == 0
}

/// `i` is the first rejected tool.
pub open spec fn first_rejected(tools: Seq<ToolDefinition>, i: int) -> bool {
    0 <= i < tools.len() && tool_rejected(tools, i) && forall|j: int|
        0 <= j < i ==> !tool_rejected(tools, j)
}

pub open spec fn registered(tools: Seq<ToolDefinition>, n: ToolName) -> bool {
    exists|j: int| 0 <= j < tools.len() && tools[j].name == n
}

/// `k` is the position in `ALL` of the first tool missing from `tools`.
pub open spec fn first_missing(tools: Seq<ToolDefinition>, k: int) -> bool {
    0 <= k < 42 && !registered(tools, all_tools()[k]) && forall|j: int|
        0 <= j < k ==> registered(tools, all_tools()[j])
}

pub open spec fn registry_verdict(reg: ToolRegistry) -> Option<(ContractErrorCode, Seq<char>)> {
    let tools = reg.tools@;
    if reg.version@ != PROTOCOL_VERSION_V1@ {
        Some((ContractErrorCode::UnsupportedVersion, "tool registry version is not sentia.v1"@))
    } else if exists|i: int| first_rejected(tools, i) {
        let i = choose|i: int| first_rejected(tools, i);
        if duplicated(tools, i) {
            Some(
                (
                    ContractErrorCode::ValidationFailed,
                    "duplicate tool registration: "@ + tool_name_text(tools[i].name),
                ),
            )
        } else {
            Some(
                (
                    ContractErrorCode::ValidationFailed,
                    "tool "@ + tool_name_text(tools[i].name) + " has invalid payload bounds"@,
                ),
            )
        }
    } else if exists|k: int| first_missing(tools, k) {
        let k = choose|k: int| first_missing(tools, k);
        Some(
            (
                ContractErrorCode::ValidationFailed,
                "missing required tool "@ + tool_name_text(all_tools()[k]),
            ),
        )
    } else {
        None
    }
}

pub open spec fn registry_reports(r: Result<(), ContractError>, reg: ToolRegistry) -> bool {
    match r {
        Ok(_) => registry_verdict(reg) is None,
        Err(e) => match registry_verdict(reg) {
            Some(p) => is_error(e, p.0, p.1),
            None => false,
        },
    }
}

impl ToolRegistry {
    /// The registry holding every tool of `ToolName::ALL`, in that order, each
    /// with its required definition; it passes `validate_complete_required_set`.
    pub fn required_v1() -> (r: Self)
        ensures
            r.version@ == PROTOCOL_VERSION_V1@,
            r.tools@.len() == 42,
            forall|i: int| 0 <= i < 42 ==> is_required_definition(#[trigger] r.tools@[i], all_tools()[i]),
            registry_verdict(r) is None,
    {
        let mut tools: Vec<ToolDefinition> = Vec::new();
        let mut k: usize = 0;
        while k < 42
            invariant
                k <= 42,
                tools@.len() == k,
                forall|i: int| 0 <= i < k ==> is_required_definition(#[trigger] tools@[i], all_tools()[i]),
            decreases 42 - k,
        {
            let name = tool_at(k);
            tools.push(required_definition(name));
            k = k + 1;
        }
        let r = Self { version: PROTOCOL_VERSION_V1.to_owned(), tools };
        proof {
            lemma_all_tools_index();
            let t = r.tools@;
            assert forall|i: int| 0 <= i < t.len() implies !tool_rejected(t, i) by {
                if duplicated(t, i) {
                    let j = choose|j: int| 0 <= j < i && t[j].name == t[i].name;
                    assert(is_required_definition(t[j], all_tools()[j]));
                    assert(is_required_definition(t[i], all_tools()[i]));
                    assert(tool_index(all_tools()[j]) == j);
                }
                assert(is_required_definition(t[i], all_tools()[i]));
            }
            assert forall|k: int| 0 <= k < 42 implies registered(t, #[trigger] all_tools()[k]) by {
                assert(is_required_definition(t[k], all_tools()[k]));
            }
        }
        r
    }

    /// Every tool is registered once with non-zero payload bounds, and every
    /// tool of `ToolName::ALL` is present.
    pub fn validate_complete_required_set(&self) -> (r: Result<(), ContractError>)
        ensures
            registry_reports(r, *self),
    {
        if !str_eq(self.version.as_str(), PROTOCOL_VERSION_V1) {
            return Err(
                fail(ContractErrorCode::UnsupportedVersion, "tool registry version is not sentia.v1"),
            );
        }
        proof {
            lemma_all_tools_index();
        }
        let ghost tools = self.tools@;
        let mut seen: Vec<bool> = Vec::new();
        while seen.len() < 42
            invariant
                seen@.len() <= 42,
                forall|k: int| 0 <= k < seen@.len() ==> !seen@[k],
            decreases 42 - seen@.len(),
        {
            seen.push(false);
        }
        let mut i: usize = 0;
        while i < self.tools.len()
            invariant
                i <= self.tools@.len(),
                tools == self.tools@,
                seen@.len() == 42,
                self.version@ == PROTOCOL_VERSION_V1@,
                forall|j: int| 0 <= j < i ==> !tool_rejected(tools, j),
                forall|n: ToolName| #[trigger] seen@[tool_index(n)] <==> exists|j: int| 0 <= j < i && tools[j].name == n,
                forall|n: ToolName| 0 <= #[trigger] tool_index(n) < 42,
                forall|n: ToolName| all_tools()[#[trigger] tool_index(n)] == n,
                forall|q: int| 0 <= q < 42 ==> tool_index(#[trigger] all_tools()[q]) == q,
            decreases self.tools@.len() - i,
        {
            let tool = &self.tools[i];
            let k = tool.name.index();
            if seen[k] {
                proof {
                    assert(seen@[tool_index(tools[i as int].name)]);
                    assert(duplicated(tools, i as int));
                    assert(first_rejected(tools, i as int));
                    let c = choose|c: int| first_rejected(tools, c);
                    assert(c == i) by {
                        if c < i {
                            assert(!tool_rejected(tools, c));
                        } else if c > i {
                            assert(!tool_rejected(tools, i as int));
                        }
                    }
                }
                return Err(
                    ContractError::new(
                        ContractErrorCode::ValidationFailed,
                        concat("duplicate tool registration: ", tool.name.as_str()),
                        false,
                    ),
                );
            }
            if tool.max_input_bytes == 0 || tool.max_output_bytes == 0 {
                proof {
                    assert(!duplicated(tools, i as int)) by {
                        if duplicated(tools, i as int) {
                            let j = choose|j: int| 0 <= j < i && tools[j].name == tools[i as int].name;
                            assert(seen@[tool_index(tools[i as int].name)]);
                        }
                    }
                    assert(first_rejected(tools, i as int));
                    let c = choose|c: int| first_rejected(tools, c);
                    assert(c == i) by {
                        if c < i {
                            assert(!tool_rejected(tools, c));
                        } else if c > i {
                            assert(!tool_rejected(tools, i as int));
                        }
                    }
                }
                let message = concat(
                    concat("tool ", tool.name.as_str()).as_str(),
                    " has invalid payload bounds",
                );
                return Err(ContractError::new(ContractErrorCode::ValidationFailed, message, false));
            }
            proof {
                assert(!duplicated(tools, i as int)) by {
                    if duplicated(tools, i as int) {
                        let j = choose|j: int| 0 <= j < i && tools[j].name == tools[i as int].name;
                        assert(seen@[tool_index(tools[i as int].name)]);
                    }
                }
            }
            seen.set(k, true);
            proof {
                assert forall|n: ToolName| #[trigger] seen@[tool_index(n)] <==> exists|j: int|
                    0 <= j < i + 1 && tools[j].name == n by {
                    if n == tools[i as int].name {
                        assert(seen@[tool_index(n)]);
                    } else {
                        assert(tool_index(n) != k) by {
                            assert(all_tools()[tool_index(n)] == n);
                            assert(all_tools()[tool_index(tools[i as int].name)] == tools[i as int].name);
                        }
                        if exists|j: int| 0 <= j < i + 1 && tools[j].name == n {
                            let j = choose|j: int| 0 <= j < i + 1 && tools[j].name == n;
                            assert(j < i);
                        }
                    }
                }
            }
            i = i + 1;
        }
        proof {
            assert forall|c: int| !first_rejected(tools, c) by {
                if 0 <= c < tools.len() {
                    assert(!tool_rejected(tools, c));
                }
            }
        }
        let mut k: usize = 0;
        while k < 42
            invariant
                k <= 42,
                i == tools.len(),
                seen@.len() == 42,
                forall|n: ToolName| #[trigger] seen@[tool_index(n)] <==> exists|j: int| 0 <= j < i && tools[j].name == n,
                forall|q: int| 0 <= q < 42 ==> tool_index(#[trigger] all_tools()[q]) == q,
                forall|q: int| 0 <= q < k ==> registered(tools, #[trigger] all_tools()[q]),
                forall|c: int| !first_rejected(tools, c),
                self.version@ == PROTOCOL_VERSION_V1@,
                tools == self.tools@,
            decreases 42 - k,
        {
            let name = tool_at(k);
            assert(tool_index(name) == k);
            if !seen[k] {
                proof {
                    assert(!registered(tools, name));
                    assert(first_missing(tools, k as int));
                    let c = choose|c: int| first_missing(tools, c);
                    assert(c == k) by {
                        if c < k {
                            assert(registered(tools, all_tools()[c]));
                        } else if c > k {
                            assert(!registered(tools, all_tools()[k as int]));
                        }
                    }
                }
                return Err(
                    ContractError::new(
                        ContractErrorCode::ValidationFailed,
                        concat("missing required tool ", name.as_str()),
                        false,
                    ),
                );
            }
            k = k + 1;
        }
        proof {
            assert forall|c: int| !first_missing(tools, c) by {
                if 0 <= c < 42 {
                    assert(registered(tools, all_tools()[c]));
                }
            }
        }
        Ok(())
    }
}

} // verus!
