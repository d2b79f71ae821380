//! The schema of the configuration, as the management API describes it:
//! its groups, and for each setting its key, label, description, kind,
//! default, whether it is required, its choices and its group.

use vstd::prelude::*;

use crate::api_types::{ConfigGroup, ConfigOption, ConfigSchemaField, ConfigSchemaResponse};

verus! {

/// [`ConfigGroup`] over character sequences.
pub struct GroupView {
    pub id: Seq<char>,
    pub label: Seq<char>,
    pub description: Seq<char>,
}

/// [`ConfigSchemaField`] over character sequences; choices are pairs of a
/// value and its label.
pub struct FieldView {
    pub key: Seq<char>,
    pub label: Seq<char>,
    pub description: Seq<char>,
    pub field_type: Seq<char>,
    pub default_value: Option<Seq<char>>,
    pub required: bool,
    pub options: Option<Seq<(Seq<char>, Seq<char>)>>,
    pub group: Seq<char>,
}

impl View for ConfigGroup {
    type V = GroupView;

    open spec fn view(&self) -> GroupView {
        GroupView { id: self.id@, label: self.label@, description: self.description@ }
    }
}

/// The choices of a setting, as (value, label) pairs.
pub open spec fn options_view(o: Option<Vec<ConfigOption>>) -> Option<Seq<(Seq<char>, Seq<char>)>> {
    match o {
        Some(v) => Some(v@.map_values(|c: ConfigOption| (c.value@, c.label@))),
        None => None,
    }
}

impl View for ConfigSchemaField {
    type V = FieldView;

    open spec fn view(&self) -> FieldView {
        FieldView {
            key: self.key@,
            label: self.label@,
            description: self.description@,
            field_type: self.field_type@,
            default_value: crate::text::opt_view(self.default_value),
            required: self.required,
            options: options_view(self.options),
            group: self.group@,
        }
    }
}

/// The views of groups.
pub open spec fn groups_view(v: Seq<ConfigGroup>) -> Seq<GroupView> {
    v.map_values(|g: ConfigGroup| g@)
}

/// The views of settings.
pub open spec fn fields_view(v: Seq<ConfigSchemaField>) -> Seq<FieldView> {
    v.map_values(|f: ConfigSchemaField| f@)
}

/// The groups of settings, in order.
pub open spec fn schema_groups() -> Seq<GroupView> {
    seq![
        GroupView { id: "server"@, label: "Server"@, description: "Server bind address and port settings"@ },
        GroupView { id: "cache"@, label: "Cache"@, description: "Cache storage limits and eviction policies"@ },
        GroupView { id: "upstream"@, label: "Upstream"@, description: "Upstream Harbor registry connection settings"@ },
        GroupView { id: "storage"@, label: "Storage"@, description: "Storage backend configuration (local or S3)"@ },
        GroupView { id: "database"@, label: "Database"@, description: "SQLite database settings"@ },
        GroupView { id: "auth"@, label: "Authentication"@, description: "Authentication and authorization settings"@ },
        GroupView { id: "logging"@, label: "Logging"@, description: "Logging level and format settings"@ },
        GroupView { id: "tls"@, label: "TLS"@, description: "TLS/HTTPS configuration"@ }

    ]
}

/// The settings of group `server`, in order.
pub open spec fn server_settings() -> Seq<FieldView> {
    seq![
        FieldView {
            key: "server.bind_address"@,
            label: "Bind Address"@,
            description: "IP address to bind the server to"@,
            field_type: "string"@,
            default_value: Some("0.0.0.0"@),
            required: true,
            options: None,
            group: "server"@,
        },
        FieldView {
            key: "server.port"@,
            label: "Port"@,
            description: "Port number to listen on"@,
            field_type: "number"@,
            default_value: Some("5001"@),
            required: true,
            options: None,
            group: "server"@,
        },
    ]
}

/// The settings of group `cache`, in order.
pub open spec fn cache_settings() -> Seq<FieldView> {
    seq![
        FieldView {
            key: "cache.max_size"@,
            label: "Maximum Size (bytes)"@,
            description: "Maximum cache size in bytes"@,
            field_type: "number"@,
            default_value: Some("10737418240"@),
            required: true,
            options: None,
            group: "cache"@,
        },
        FieldView {
            key: "cache.retention_days"@,
            label: "Retention Days"@,
            description: "Number of days to retain cached artifacts"@,
            field_type: "number"@,
            default_value: Some("30"@),
            required: true,
            options: None,
            group: "cache"@,
        },
        FieldView {
            key: "cache.eviction_policy"@,
            label: "Eviction Policy"@,
            description: "Cache eviction policy when limit is reached"@,
            field_type: "select"@,
            default_value: Some("lru"@),
            required: true,
            options: Some(seq![("lru"@, "LRU (Least Recently Used)"@), ("lfu"@, "LFU (Least Frequently Used)"@), ("fifo"@, "FIFO (First In First Out)"@)]),
            group: "cache"@,
        },
    ]
}

/// The settings of group `upstream`, in order.
pub open spec fn upstream_settings() -> Seq<FieldView> {
    seq![
        FieldView {
            key: "upstream.url"@,
            label: "URL"@,
            description: "URL of the upstream Harbor registry"@,
            field_type: "string"@,
            default_value: Some("http://localhost:8880"@),
            required: true,
            options: None,
            group: "upstream"@,
        },
        FieldView {
            key: "upstream.registry"@,
            label: "Registry Name"@,
            description: "Registry/project name to proxy"@,
            field_type: "string"@,
            default_value: Some("library"@),
            required: true,
            options: None,
            group: "upstream"@,
        },
        FieldView {
            key: "upstream.username"@,
            label: "Username"@,
            description: "Username for upstream authentication"@,
            field_type: "string"@,
            default_value: None,
            required: false,
            options: None,
            group: "upstream"@,
        },
        FieldView {
            key: "upstream.password"@,
            label: "Password"@,
            description: "Password for upstream authentication"@,
            field_type: "password"@,
            default_value: None,
            required: false,
            options: None,
            group: "upstream"@,
        },
        FieldView {
            key: "upstream.skip_tls_verify"@,
            label: "Skip TLS Verification"@,
            description: "Skip TLS certificate verification (for self-signed certs)"@,
            field_type: "boolean"@,
            default_value: Some("false"@),
            required: false,
            options: None,
            group: "upstream"@,
        },
    ]
}

/// The settings of group `storage`, in order.
pub open spec fn storage_settings() -> Seq<FieldView> {
    seq![
        FieldView {
            key: "storage.backend"@,
            label: "Backend"@,
            description: "Storage backend type"@,
            field_type: "select"@,
            default_value: Some("local"@),
            required: true,
            options: Some(seq![("local"@, "Local Disk"@), ("s3"@, "S3 Compatible"@)]),
            group: "storage"@,
        },
        FieldView {
            key: "storage.local.path"@,
            label: "Local Path"@,
            description: "Path for local cache storage"@,
            field_type: "string"@,
            default_value: Some("./data/cache"@),
            required: false,
            options: None,
            group: "storage"@,
        },
        FieldView {
            key: "storage.s3.bucket"@,
            label: "S3 Bucket"@,
            description: "S3 bucket name"@,
            field_type: "string"@,
            default_value: None,
            required: false,
            options: None,
            group: "storage"@,
        },
        FieldView {
            key: "storage.s3.region"@,
            label: "S3 Region"@,
            description: "AWS region for the S3 bucket"@,
            field_type: "string"@,
            default_value: Some("us-east-1"@),
            required: false,
            options: None,
            group: "storage"@,
        },
        FieldView {
            key: "storage.s3.endpoint"@,
            label: "S3 Endpoint"@,
            description: "Custom S3 endpoint (for MinIO or other S3-compatible services)"@,
            field_type: "string"@,
            default_value: None,
            required: false,
            options: None,
            group: "storage"@,
        },
        FieldView {
            key: "storage.s3.access_key"@,
            label: "S3 Access Key"@,
            description: "AWS access key ID"@,
            field_type: "string"@,
            default_value: None,
            required: false,
            options: None,
            group: "storage"@,
        },
        FieldView {
            key: "storage.s3.secret_key"@,
            label: "S3 Secret Key"@,
            description: "AWS secret access key"@,
            field_type: "password"@,
            default_value: None,
            required: false,
            options: None,
            group: "storage"@,
        },
        FieldView {
            key: "storage.s3.prefix"@,
            label: "S3 Prefix"@,
            description: "Optional prefix for all objects"@,
            field_type: "string"@,
            default_value: None,
            required: false,
            options: None,
            group: "storage"@,
        },
        FieldView {
            key: "storage.s3.allow_http"@,
            label: "Allow HTTP"@,
            description: "Allow HTTP (not HTTPS) for S3 connections"@,
            field_type: "boolean"@,
            default_value: Some("false"@),
            required: false,
            options: None,
            group: "storage"@,
        },
    ]
}

/// The settings of group `database`, in order.
pub open spec fn database_settings() -> Seq<FieldView> {
    seq![
        FieldView {
            key: "database.path"@,
            label: "Database Path"@,
            description: "Path to SQLite database file"@,
            field_type: "string"@,
            default_value: Some("./data/harbor-cache.db"@),
            required: true,
            options: None,
            group: "database"@,
        },
    ]
}

/// The settings of group `auth`, in order.
pub open spec fn auth_settings() -> Seq<FieldView> {
    seq![
        FieldView {
            key: "auth.jwt_secret"@,
            label: "JWT Secret"@,
            description: "Secret key for JWT token signing"@,
            field_type: "password"@,
            default_value: None,
            required: true,
            options: None,
            group: "auth"@,
        },
        FieldView {
            key: "auth.enabled"@,
            label: "Enable Authentication"@,
            description: "Enable authentication for API endpoints"@,
            field_type: "boolean"@,
            default_value: Some("true"@),
            required: false,
            options: None,
            group: "auth"@,
        },
    ]
}

/// The settings of group `logging`, in order.
pub open spec fn logging_settings() -> Seq<FieldView> {
    seq![
        FieldView {
            key: "logging.level"@,
            label: "Log Level"@,
            description: "Logging verbosity level"@,
            field_type: "select"@,
            default_value: Some("info"@),
            required: false,
            options: Some(seq![("trace"@, "Trace"@), ("debug"@, "Debug"@), ("info"@, "Info"@), ("warn"@, "Warning"@), ("error"@, "Error"@)]),
            group: "logging"@,
        },
        FieldView {
            key: "logging.format"@,
            label: "Log Format"@,
            description: "Log output format"@,
            field_type: "select"@,
            default_value: Some("pretty"@),
            required: false,
            options: Some(seq![("pretty"@, "Pretty"@), ("json"@, "JSON"@)]),
            group: "logging"@,
        },
    ]
}

/// The settings of group `tls`, in order.
pub open spec fn tls_settings() -> Seq<FieldView> {
    seq![
        FieldView {
            key: "tls.enabled"@,
            label: "Enable TLS"@,
            description: "Enable TLS/HTTPS"@,
            field_type: "boolean"@,
            default_value: Some("false"@),
            required: false,
            options: None,
            group: "tls"@,
        },
        FieldView {
            key: "tls.cert_path"@,
            label: "Certificate Path"@,
            description: "Path to TLS certificate file (PEM format)"@,
            field_type: "string"@,
            default_value: None,
            required: false,
            options: None,
            group: "tls"@,
        },
        FieldView {
            key: "tls.key_path"@,
            label: "Key Path"@,
            description: "Path to TLS private key file (PEM format)"@,
            field_type: "string"@,
            default_value: None,
            required: false,
            options: None,
            group: "tls"@,
        },
    ]
}

/// All settings, group by group.
pub open spec fn schema_settings() -> Seq<FieldView> {
    server_settings() + cache_settings() + upstream_settings() + storage_settings() + database_settings() + auth_settings() + logging_settings() + tls_settings()
}

fn group(id: &str, label: &str, description: &str) -> (g: ConfigGroup)
    ensures
        g@ == (GroupView { id: id@, label: label@, description: description@ }),
{
    ConfigGroup { id: id.to_string(), label: label.to_string(), description: description.to_string() }
}

fn choice(value: &str, label: &str) -> (c: ConfigOption)
    ensures
        c.value@ == value@,
        c.label@ == label@,
{
    ConfigOption { value: value.to_string(), label: label.to_string() }
}

fn setting(
    key: &str,
    label: &str,
    description: &str,
    field_type: &str,
    default_value: Option<&str>,
    required: bool,
    options: Option<Vec<ConfigOption>>,
    group: &str,
) -> (f: ConfigSchemaField)
    ensures
        f@ == (FieldView {
            key: key@,
            label: label@,
            description: description@,
            field_type: field_type@,
            default_value: match default_value {
                Some(d) => Some(d@),
                None => None,
            },
            required,
            options: options_view(options),
            group: group@,
        }),
{
    ConfigSchemaField {
        key: key.to_string(),
        label: label.to_string(),
        description: description.to_string(),
        field_type: field_type.to_string(),
        default_value: match default_value {
            Some(d) => Some(d.to_string()),
            None => None,
        },
        required,
        options,
        group: group.to_string(),
    }
}

/// The settings of group `server`.
fn server_group_settings() -> (v: Vec<ConfigSchemaField>)
    ensures
        fields_view(v@) == server_settings(),
{
    let mut v: Vec<ConfigSchemaField> = Vec::new();
    v.push(
        setting(
            "server.bind_address",
            "Bind Address",
            "IP address to bind the server to",
            "string",
            Some("0.0.0.0"),
            true,
            None,
            "server",
        ),
    );
    v.push(
        setting(
            "server.port",
            "Port",
            "Port number to listen on",
            "number",
            Some("5001"),
            true,
            None,
            "server",
        ),
    );
    assert(fields_view(v@) =~= server_settings());
    v
}

/// The settings of group `cache`.
fn cache_group_settings() -> (v: Vec<ConfigSchemaField>)
    ensures
        fields_view(v@) == cache_settings(),
{
    let mut v: Vec<ConfigSchemaField> = Vec::new();
    v.push(
        setting(
            "cache.max_size",
            "Maximum Size (bytes)",
            "Maximum cache size in bytes",
            "number",
            Some("10737418240"),
            true,
            None,
            "cache",
        ),
    );
    v.push(
        setting(
            "cache.retention_days",
            "Retention Days",
            "Number of days to retain cached artifacts",
            "number",
            Some("30"),
            true,
            None,
            "cache",
        ),
    );
    let opts = vec![choice("lru", "LRU (Least Recently Used)"), choice("lfu", "LFU (Least Frequently Used)"), choice("fifo", "FIFO (First In First Out)")];
    assert(opts@.map_values(|c: ConfigOption| (c.value@, c.label@)) =~= seq![("lru"@, "LRU (Least Recently Used)"@), ("lfu"@, "LFU (Least Frequently Used)"@), ("fifo"@, "FIFO (First In First Out)"@)]);
    v.push(
        setting(
            "cache.eviction_policy",
            "Eviction Policy",
            "Cache eviction policy when limit is reached",
            "select",
            Some("lru"),
            true,
            Some(opts),
            "cache",
        ),
    );
    assert(fields_view(v@) =~= cache_settings());
    v
}

/// The settings of group `upstream`.
fn upstream_group_settings() -> (v: Vec<ConfigSchemaField>)
    ensures
        fields_view(v@) == upstream_settings(),
{
    let mut v: Vec<ConfigSchemaField> = Vec::new();
    v.push(
        setting(
            "upstream.url",
            "URL",
            "URL of the upstream Harbor registry",
            "string",
            Some("http://localhost:8880"),
            true,
            None,
            "upstream",
        ),
    );
    v.push(
        setting(
            "upstream.registry",
            "Registry Name",
            "Registry/project name to proxy",
            "string",
            Some("library"),
            true,
            None,
            "upstream",
        ),
    );
    v.push(
        setting(
            "upstream.username",
            "Username",
            "Username for upstream authentication",
            "string",
            None,
            false,
            None,
            "upstream",
        ),
    );
    v.push(
        setting(
            "upstream.password",
            "Password",
            "Password for upstream authentication",
            "password",
            None,
            false,
            None,
            "upstream",
        ),
    );
    v.push(
        setting(
            "upstream.skip_tls_verify",
            "Skip TLS Verification",
            "Skip TLS certificate verification (for self-signed certs)",
            "boolean",
            Some("false"),
            false,
            None,
            "upstream",
        ),
    );
    assert(fields_view(v@) =~= upstream_settings());
    v
}

/// The settings of group `storage`.
fn storage_group_settings() -> (v: Vec<ConfigSchemaField>)
    ensures
        fields_view(v@) == storage_settings(),
{
    let mut v: Vec<ConfigSchemaField> = Vec::new();
    let opts = vec![choice("local", "Local Disk"), choice("s3", "S3 Compatible")];
    assert(opts@.map_values(|c: ConfigOption| (c.value@, c.label@)) =~= seq![("local"@, "Local Disk"@), ("s3"@, "S3 Compatible"@)]);
    v.push(
        setting(
            "storage.backend",
            "Backend",
            "Storage backend type",
            "select",
            Some("local"),
            true,
            Some(opts),
            "storage",
        ),
    );
    v.push(
        setting(
            "storage.local.path",
            "Local Path",
            "Path for local cache storage",
            "string",
            Some("./data/cache"),
            false,
            None,
            "storage",
        ),
    );
    v.push(
        setting(
            "storage.s3.bucket",
            "S3 Bucket",
            "S3 bucket name",
            "string",
            None,
            false,
            None,
            "storage",
        ),
    );
    v.push(
        setting(
            "storage.s3.region",
            "S3 Region",
            "AWS region for the S3 bucket",
            "string",
            Some("us-east-1"),
            false,
            None,
            "storage",
        ),
    );
    v.push(
        setting(
            "storage.s3.endpoint",
            "S3 Endpoint",
            "Custom S3 endpoint (for MinIO or other S3-compatible services)",
            "string",
            None,
            false,
            None,
            "storage",
        ),
    );
    v.push(
        setting(
            "storage.s3.access_key",
            "S3 Access Key",
            "AWS access key ID",
            "string",
            None,
            false,
            None,
            "storage",
        ),
    );
    v.push(
        setting(
            "storage.s3.secret_key",
            "S3 Secret Key",
            "AWS secret access key",
            "password",
            None,
            false,
            None,
            "storage",
        ),
    );
    v.push(
        setting(
            "storage.s3.prefix",
            "S3 Prefix",
            "Optional prefix for all objects",
            "string",
            None,
            false,
            None,
            "storage",
        ),
    );
    v.push(
        setting(
            "storage.s3.allow_http",
            "Allow HTTP",
            "Allow HTTP (not HTTPS) for S3 connections",
            "boolean",
            Some("false"),
            false,
            None,
            "storage",
        ),
    );
    assert(fields_view(v@) =~= storage_settings());
    v
}

/// The settings of group `database`.
fn database_group_settings() -> (v: Vec<ConfigSchemaField>)
    ensures
        fields_view(v@) == database_settings(),
{
    let mut v: Vec<ConfigSchemaField> = Vec::new();
    v.push(
        setting(
            "database.path",
            "Database Path",
            "Path to SQLite database file",
            "string",
            Some("./data/harbor-cache.db"),
            true,
            None,
            "database",
        ),
    );
    assert(fields_view(v@) =~= database_settings());
    v
}

/// The settings of group `auth`.
fn auth_group_settings() -> (v: Vec<ConfigSchemaField>)
    ensures
        fields_view(v@) == auth_settings(),
{
    let mut v: Vec<ConfigSchemaField> = Vec::new();
    v.push(
        setting(
            "auth.jwt_secret",
            "JWT Secret",
            "Secret key for JWT token signing",
            "password",
            None,
            true,
            None,
            "auth",
        ),
    );
    v.push(
        setting(
            "auth.enabled",
            "Enable Authentication",
            "Enable authentication for API endpoints",
            "boolean",
            Some("true"),
            false,
            None,
            "auth",
        ),
    );
    assert(fields_view(v@) =~= auth_settings());
    v
}

/// The settings of group `logging`.
fn logging_group_settings() -> (v: Vec<ConfigSchemaField>)
    ensures
        fields_view(v@) == logging_settings(),
{
    let mut v: Vec<ConfigSchemaField> = Vec::new();
    let opts = vec![choice("trace", "Trace"), choice("debug", "Debug"), choice("info", "Info"), choice("warn", "Warning"), choice("error", "Error")];
    assert(opts@.map_values(|c: ConfigOption| (c.value@, c.label@)) =~= seq![("trace"@, "Trace"@), ("debug"@, "Debug"@), ("info"@, "Info"@), ("warn"@, "Warning"@), ("error"@, "Error"@)]);
    v.push(
        setting(
            "logging.level",
            "Log Level",
            "Logging verbosity level",
            "select",
            Some("info"),
            false,
            Some(opts),
            "logging",
        ),
    );
    let opts = vec![choice("pretty", "Pretty"), choice("json", "JSON")];
    assert(opts@.map_values(|c: ConfigOption| (c.value@, c.label@)) =~= seq![("pretty"@, "Pretty"@), ("json"@, "JSON"@)]);
    v.push(
        setting(
            "logging.format",
            "Log Format",
            "Log output format",
            "select",
            Some("pretty"),
            false,
            Some(opts),
            "logging",
        ),
    );
    assert(fields_view(v@) =~= logging_settings());
    v
}

/// The settings of group `tls`.
fn tls_group_settings() -> (v: Vec<ConfigSchemaField>)
    ensures
        fields_view(v@) == tls_settings(),
{
    let mut v: Vec<ConfigSchemaField> = Vec::new();
    v.push(
        setting(
            "tls.enabled",
            "Enable TLS",
            "Enable TLS/HTTPS",
            "boolean",
            Some("false"),
            false,
            None,
            "tls",
        ),
    );
    v.push(
        setting(
            "tls.cert_path",
            "Certificate Path",
            "Path to TLS certificate file (PEM format)",
            "string",
            None,
            false,
            None,
            "tls",
        ),
    );
    v.push(
        setting(
            "tls.key_path",
            "Key Path",
            "Path to TLS private key file (PEM format)",
            "string",
            None,
            false,
            None,
            "tls",
        ),
    );
    assert(fields_view(v@) =~= tls_settings());
    v
}

/// The configuration schema: its groups and settings (see
/// [`schema_groups`] and [`schema_settings`]).
pub fn build_config_schema() -> (r: ConfigSchemaResponse)
    ensures
        groups_view(r.groups@) == schema_groups(),
        fields_view(r.fields@) == schema_settings(),
{
    let mut groups: Vec<ConfigGroup> = Vec::new();
    groups.push(group("server", "Server", "Server bind address and port settings"));
    groups.push(group("cache", "Cache", "Cache storage limits and eviction policies"));
    groups.push(group("upstream", "Upstream", "Upstream Harbor registry connection settings"));
    groups.push(group("storage", "Storage", "Storage backend configuration (local or S3)"));
    groups.push(group("database", "Database", "SQLite database settings"));
    groups.push(group("auth", "Authentication", "Authentication and authorization settings"));
    groups.push(group("logging", "Logging", "Logging level and format settings"));
    groups.push(group("tls", "TLS", "TLS/HTTPS configuration"));
    assert(groups_view(groups@) =~= schema_groups());
    let mut fields: Vec<ConfigSchemaField> = Vec::new();
    let ghost before = fields_view(fields@);
    let mut part = server_group_settings();
    fields.append(&mut part);
    assert(fields_view(fields@) =~= before + server_settings());
    let ghost before = fields_view(fields@);
    let mut part = cache_group_settings();
    fields.append(&mut part);
    assert(fields_view(fields@) =~= before + cache_settings());
    let ghost before = fields_view(fields@);
    let mut part = upstream_group_settings();
    fields.append(&mut part);
    assert(fields_view(fields@) =~= before + upstream_settings());
    let ghost before = fields_view(fields@);
    let mut part = storage_group_settings();
    fields.append(&mut part);
    assert(fields_view(fields@) =~= before + storage_settings());
    let ghost before = fields_view(fields@);
    let mut part = database_group_settings();
    fields.append(&mut part);
    assert(fields_view(fields@) =~= before + database_settings());
    let ghost before = fields_view(fields@);
    let mut part = auth_group_settings();
    fields.append(&mut part);
    assert(fields_view(fields@) =~= before + auth_settings());
    let ghost before = fields_view(fields@);
    let mut part = logging_group_settings();
    fields.append(&mut part);
    assert(fields_view(fields@) =~= before + logging_settings());
    let ghost before = fields_view(fields@);
    let mut part = tls_group_settings();
    fields.append(&mut part);
    assert(fields_view(fields@) =~= before + tls_settings());
    assert(fields_view(fields@) =~= schema_settings());
    ConfigSchemaResponse { fields, groups }
}

} // verus!
