//! Split-process terminal testing: the control messages sent to a terminal
//! daemon, its configuration, and the rules for reading the terminal state
//! it exposes in shared memory (header validation, grid layout, cell lookup).

use vstd::prelude::*;
use crate::text::{decimal, push_char, push_decimal};
use crate::scan::str_chars;
use crate::screen::{occurs_in, seq_contains};
use vstd::utf8::{decode_utf8, valid_utf8};

verus! {

/// A filesystem path from the standard library.
#[verifier::external_type_specification]
#[verifier::external_body]
pub struct ExPathBuf(std::path::PathBuf);

/// What `PathBuf::from` gives for a string.
pub uninterp spec fn path_of(s: Seq<char>) -> std::path::PathBuf;

/// `PathBuf::from(&str)`. Trusted: the path is named by `path_of`.
#[verifier::external_body]
fn path_from(s: &str) -> (p: std::path::PathBuf)
    ensures
        p == path_of(s@),
{
    std::path::PathBuf::from(s)
}

/// What `Duration::from_secs` gives.
pub uninterp spec fn duration_from_secs(secs: u64) -> std::time::Duration;

/// `Duration::from_secs`. Trusted: the duration is named by `duration_from_secs`.
pub assume_specification[ std::time::Duration::from_secs ](secs: u64) -> (d: std::time::Duration)
    ensures
        d == duration_from_secs(secs),
;

/// Errors of IPC test operations.
#[derive(Debug)]
pub enum IpcError {
    /// Unix socket not found at expected path.
    SocketNotFound(std::path::PathBuf),
    /// Failed to connect to Unix socket.
    ConnectionFailed(std::io::Error),
    /// Failed to send message via IPC.
    SendFailed(std::io::Error),
    /// Shared memory segment not found.
    SharedMemoryNotFound(String),
    /// Failed to map shared memory.
    MmapFailed(String),
    /// Timeout waiting for condition.
    Timeout(std::time::Duration),
    /// Invalid shared memory format or data.
    InvalidData(String),
    /// Daemon process failed to spawn.
    SpawnFailed(std::io::Error),
    /// I/O error during operation.
    Io(std::io::Error),
    /// Environment variable RTL_IPC_TEST not set.
    TestingDisabled,
}

/// Control messages sent to the terminal daemon.
#[derive(Debug, Clone)]
pub enum ControlMessage {
    /// Send keyboard/text input to the PTY.
    Input(Vec<u8>),
    /// Resize the terminal.
    Resize {
        /// Number of columns.
        cols: u16,
        /// Number of rows.
        rows: u16,
    },
    /// Request a state refresh.
    Refresh,
    /// Shutdown the daemon gracefully.
    Shutdown,
}

/// The four little-endian bytes of a 32-bit value.
pub open spec fn u32_le(n: u32) -> Seq<u8> {
    seq![(n % 256) as u8, ((n / 256) % 256) as u8, ((n / 65536) % 256) as u8, (n / 16777216) as u8]
}

/// The two little-endian bytes of a 16-bit value.
pub open spec fn u16_le(n: u16) -> Seq<u8> {
    seq![(n % 256) as u8, (n / 256) as u8]
}

/// The wire form of a message: a type byte (0 input, 1 resize, 2 refresh,
/// 3 shutdown), then for input the length as 32 bits little-endian
/// (truncated) and the data, for resize the columns and rows as 16 bits
/// little-endian.
pub open spec fn message_bytes(m: ControlMessage) -> Seq<u8> {
    match m {
        ControlMessage::Input(data) => seq![0u8] + u32_le(data@.len() as u32) + data@,
        ControlMessage::Resize { cols, rows } => seq![1u8] + u16_le(cols) + u16_le(rows),
        ControlMessage::Refresh => seq![2u8],
        ControlMessage::Shutdown => seq![3u8],
    }
}

/// Appends the little-endian bytes of a 32-bit value.
fn push_u32_le(buf: &mut Vec<u8>, n: u32)
    ensures
        final(buf)@ == old(buf)@ + u32_le(n),
{
    buf.push((n % 256) as u8);
    buf.push(((n / 256) % 256) as u8);
    buf.push(((n / 65536) % 256) as u8);
    buf.push((n / 16777216) as u8);
    assert(buf@ =~= old(buf)@ + u32_le(n));
}

/// Appends the little-endian bytes of a 16-bit value.
fn push_u16_le(buf: &mut Vec<u8>, n: u16)
    ensures
        final(buf)@ == old(buf)@ + u16_le(n),
{
    buf.push((n % 256) as u8);
    buf.push((n / 256) as u8);
    assert(buf@ =~= old(buf)@ + u16_le(n));
}

impl ControlMessage {
    /// The message in the default wire format.
    pub fn to_bytes(&self) -> (r: Vec<u8>)
        ensures
            r@ == message_bytes(*self),
    {
        match self {
            ControlMessage::Input(data) => {
                let mut buf: Vec<u8> = Vec::new();
                buf.push(0u8);
                push_u32_le(&mut buf, #[verifier::truncate] (data.len() as u32));
                let mut i: usize = 0;
                let ghost head = buf@;
                while i < data.len()
                    invariant
                        i <= data@.len(),
                        buf@ == head + data@.subrange(0, i as int),
                    decreases data@.len() - i,
                {
                    buf.push(data[i]);
                    assert(data@.subrange(0, i + 1) =~= data@.subrange(0, i as int).push(data@[i as int]));
                    i = i + 1;
                }
                assert(data@.subrange(0, data@.len() as int) =~= data@);
                assert(buf@ =~= message_bytes(*self));
                buf
            },
            ControlMessage::Resize { cols, rows } => {
                let mut buf: Vec<u8> = Vec::new();
                buf.push(1u8);
                push_u16_le(&mut buf, *cols);
                push_u16_le(&mut buf, *rows);
                assert(buf@ =~= message_bytes(*self));
                buf
            },
            ControlMessage::Refresh => {
                let mut buf: Vec<u8> = Vec::new();
                buf.push(2u8);
                assert(buf@ =~= message_bytes(*self));
                buf
            },
            ControlMessage::Shutdown => {
                let mut buf: Vec<u8> = Vec::new();
                buf.push(3u8);
                assert(buf@ =~= message_bytes(*self));
                buf
            },
        }
    }
}

/// Configuration of a daemon test harness.
#[derive(Debug)]
pub struct DaemonConfig {
    /// Path to the Unix socket for IPC.
    pub socket_path: std::path::PathBuf,
    /// Path to the shared memory segment for terminal state.
    pub shm_path: String,
    /// Path to optional image shared memory segment.
    pub image_shm_path: Option<String>,
    /// Whether to spawn a fresh daemon process.
    pub spawn_daemon: bool,
    /// Command to spawn the daemon (if spawn_daemon is true).
    pub daemon_command: String,
    /// Additional arguments for the daemon command.
    pub daemon_args: Vec<String>,
    /// Terminal dimensions (cols, rows) if spawning daemon.
    pub dimensions: Option<(u16, u16)>,
    /// Connection timeout.
    pub connect_timeout: std::time::Duration,
    /// Default timeout for wait operations.
    pub default_timeout: std::time::Duration,
}

/// `PathBuf::clone`. Trusted: the copy is the same path.
pub assume_specification[ <std::path::PathBuf as Clone>::clone ](p: &std::path::PathBuf) -> (r: std::path::PathBuf)
    ensures
        r == *p,
;

/// A copy of each string, in order.
pub fn copy_strings(v: &Vec<String>) -> (r: Vec<String>)
    ensures
        r@.len() == v@.len(),
        forall|i: int| 0 <= i < v@.len() ==> (#[trigger] r@[i])@ == v@[i]@,
{
    let mut r: Vec<String> = Vec::new();
    let mut i: usize = 0;
    while i < v.len()
        invariant
            i <= v@.len(),
            r@.len() == i,
            forall|k: int| 0 <= k < i ==> (#[trigger] r@[k])@ == v@[k]@,
        decreases v@.len() - i,
    {
        r.push(v[i].clone());
        i = i + 1;
    }
    r
}

impl Clone for DaemonConfig {
    fn clone(&self) -> (c: DaemonConfig)
        ensures
            c.socket_path == self.socket_path,
            c.shm_path@ == self.shm_path@,
            c.image_shm_path is Some <==> self.image_shm_path is Some,
            c.image_shm_path matches Some(p) ==> p@ == self.image_shm_path->Some_0@,
            c.spawn_daemon == self.spawn_daemon,
            c.daemon_command@ == self.daemon_command@,
            c.daemon_args@.len() == self.daemon_args@.len(),
            forall|i: int| 0 <= i < self.daemon_args@.len() ==> (#[trigger] c.daemon_args@[i])@ == self.daemon_args@[i]@,
            c.dimensions == self.dimensions,
            c.connect_timeout == self.connect_timeout,
            c.default_timeout == self.default_timeout,
    {
        DaemonConfig {
            socket_path: self.socket_path.clone(),
            shm_path: self.shm_path.clone(),
            image_shm_path: match &self.image_shm_path {
                Some(p) => Some(p.clone()),
                None => None,
            },
            spawn_daemon: self.spawn_daemon,
            daemon_command: self.daemon_command.clone(),
            daemon_args: copy_strings(&self.daemon_args),
            dimensions: self.dimensions,
            connect_timeout: self.connect_timeout,
            default_timeout: self.default_timeout,
        }
    }
}

impl Default for DaemonConfig {
    fn default() -> (c: DaemonConfig)
        ensures
            c.socket_path == path_of("/tmp/term-daemon.sock"@),
            c.shm_path@ == "/term_shm_v1"@,
            c.image_shm_path is None,
            !c.spawn_daemon,
            c.daemon_command@ == "term-daemon"@,
            c.daemon_args@.len() == 0,
            c.dimensions == Some((80u16, 24u16)),
            c.connect_timeout == duration_from_secs(5),
            c.default_timeout == duration_from_secs(10),
    {
        DaemonConfig {
            socket_path: path_from("/tmp/term-daemon.sock"),
            shm_path: String::from_str("/term_shm_v1"),
            image_shm_path: None,
            spawn_daemon: false,
            daemon_command: String::from_str("term-daemon"),
            daemon_args: Vec::new(),
            dimensions: Some((80, 24)),
            connect_timeout: std::time::Duration::from_secs(5),
            default_timeout: std::time::Duration::from_secs(10),
        }
    }
}

impl DaemonConfig {
    /// A builder starting from the default configuration.
    pub fn builder() -> (b: DaemonConfigBuilder)
        ensures
            b.config.socket_path == path_of("/tmp/term-daemon.sock"@),
            b.config.shm_path@ == "/term_shm_v1"@,
            b.config.image_shm_path is None,
            !b.config.spawn_daemon,
            b.config.daemon_command@ == "term-daemon"@,
            b.config.daemon_args@.len() == 0,
            b.config.dimensions == Some((80u16, 24u16)),
            b.config.connect_timeout == duration_from_secs(5),
            b.config.default_timeout == duration_from_secs(10),
    {
        DaemonConfigBuilder { config: DaemonConfig::default() }
    }
}

/// Builder of a `DaemonConfig`.
#[derive(Debug)]
pub struct DaemonConfigBuilder {
    /// The configuration built so far.
    pub config: DaemonConfig,
}

impl Default for DaemonConfigBuilder {
    fn default() -> (b: DaemonConfigBuilder)
        ensures
            b.config.socket_path == path_of("/tmp/term-daemon.sock"@),
            b.config.shm_path@ == "/term_shm_v1"@,
            b.config.image_shm_path is None,
            !b.config.spawn_daemon,
            b.config.daemon_command@ == "term-daemon"@,
            b.config.daemon_args@.len() == 0,
            b.config.dimensions == Some((80u16, 24u16)),
            b.config.connect_timeout == duration_from_secs(5),
            b.config.default_timeout == duration_from_secs(10),
    {
        DaemonConfig::builder()
    }
}

impl DaemonConfigBuilder {
    /// Sets the Unix socket path.
    pub fn socket_path(self, path: &str) -> (b: DaemonConfigBuilder)
        ensures
            b.config == (DaemonConfig { socket_path: path_of(path@), ..self.config }),
    {
        let mut b = self;
        b.config.socket_path = path_from(path);
        b
    }

    /// Sets the shared memory path.
    pub fn shm_path(self, path: &str) -> (b: DaemonConfigBuilder)
        ensures
            b.config.shm_path@ == path@,
            b.config == (DaemonConfig { shm_path: b.config.shm_path, ..self.config }),
    {
        let mut b = self;
        b.config.shm_path = String::from_str(path);
        b
    }

    /// Sets the image shared memory path.
    pub fn image_shm_path(self, path: &str) -> (b: DaemonConfigBuilder)
        ensures
            b.config.image_shm_path matches Some(p) && p@ == path@,
            b.config == (DaemonConfig { image_shm_path: b.config.image_shm_path, ..self.config }),
    {
        let mut b = self;
        b.config.image_shm_path = Some(String::from_str(path));
        b
    }

    /// Sets whether to spawn a daemon.
    pub fn spawn_daemon(self, spawn: bool) -> (b: DaemonConfigBuilder)
        ensures
            b.config == (DaemonConfig { spawn_daemon: spawn, ..self.config }),
    {
        let mut b = self;
        b.config.spawn_daemon = spawn;
        b
    }

    /// Sets the daemon command to spawn.
    pub fn daemon_command(self, cmd: &str) -> (b: DaemonConfigBuilder)
        ensures
            b.config.daemon_command@ == cmd@,
            b.config == (DaemonConfig { daemon_command: b.config.daemon_command, ..self.config }),
    {
        let mut b = self;
        b.config.daemon_command = String::from_str(cmd);
        b
    }

    /// Sets the daemon command arguments.
    pub fn daemon_args(self, args: Vec<String>) -> (b: DaemonConfigBuilder)
        ensures
            b.config == (DaemonConfig { daemon_args: args, ..self.config }),
    {
        let mut b = self;
        b.config.daemon_args = args;
        b
    }

    /// Sets the terminal dimensions.
    pub fn dimensions(self, cols: u16, rows: u16) -> (b: DaemonConfigBuilder)
        ensures
            b.config == (DaemonConfig { dimensions: Some((cols, rows)), ..self.config }),
    {
        let mut b = self;
        b.config.dimensions = Some((cols, rows));
        b
    }

    /// Sets the connection timeout.
    pub fn connect_timeout(self, timeout: std::time::Duration) -> (b: DaemonConfigBuilder)
        ensures
            b.config == (DaemonConfig { connect_timeout: timeout, ..self.config }),
    {
        let mut b = self;
        b.config.connect_timeout = timeout;
        b
    }

    /// Sets the default wait timeout.
    pub fn default_timeout(self, timeout: std::time::Duration) -> (b: DaemonConfigBuilder)
        ensures
            b.config == (DaemonConfig { default_timeout: timeout, ..self.config }),
    {
        let mut b = self;
        b.config.default_timeout = timeout;
        b
    }

    /// The configuration.
    pub fn build(self) -> (c: DaemonConfig)
        ensures
            c == self.config,
    {
        self.config
    }
}

/// Shared memory header of the terminal state, in the layout
/// magic, version (32 bits each), cols, rows, cursor column, cursor row
/// (16 bits each), then sequence number, grid offset and size, attribute
/// offset and size (32 bits each).
#[derive(Debug, Clone, Copy)]
pub struct ShmHeader {
    /// Magic number for validation.
    pub magic: u32,
    /// Protocol version.
    pub version: u32,
    /// Terminal columns.
    pub cols: u16,
    /// Terminal rows.
    pub rows: u16,
    /// Cursor column position.
    pub cursor_col: u16,
    /// Cursor row position.
    pub cursor_row: u16,
    /// Sequence number for change detection.
    pub sequence_number: u32,
    /// Offset to grid data.
    pub grid_offset: u32,
    /// Size of grid data.
    pub grid_size: u32,
    /// Offset to attributes data.
    pub attrs_offset: u32,
    /// Size of attributes data.
    pub attrs_size: u32,
}

/// An uppercase hexadecimal digit.
pub open spec fn hex_digit(d: nat) -> char {
    if d < 10 {
        ((d + 48) as u8) as char
    } else {
        ((d + 55) as u8) as char
    }
}

/// The last `k` hexadecimal digits of `n`, zero-padded.
pub open spec fn hex_digits(n: nat, k: nat) -> Seq<char>
    decreases k,
{
    if k == 0 {
        Seq::empty()
    } else {
        hex_digits(n / 16, (k - 1) as nat).push(hex_digit(n % 16))
    }
}

/// Eight uppercase hexadecimal digits, as `{:08X}` prints a 32-bit value.
pub open spec fn hex8(n: u32) -> Seq<char> {
    hex_digits(n as nat, 8)
}

/// The message of a header with the wrong magic number.
pub open spec fn bad_magic_message(expected: u32, got: u32) -> Seq<char> {
    "Invalid magic: expected 0x"@ + hex8(expected) + ", got 0x"@ + hex8(got)
}

/// The message of a header with the wrong version.
pub open spec fn bad_version_message(expected: u32, got: u32) -> Seq<char> {
    "Unsupported version: expected "@ + decimal(expected as nat) + ", got "@ + decimal(got as nat)
}

/// Appends the last `k` hexadecimal digits of `n`.
fn push_hex(s: &mut String, n: u32, k: u32)
    requires
        k <= 8,
    ensures
        final(s)@ == old(s)@ + hex_digits(n as nat, k as nat),
    decreases k,
{
    if k > 0 {
        push_hex(s, n / 16, k - 1);
        let d: u32 = n % 16;
        let c: char = if d < 10 {
            ((d + 48) as u8) as char
        } else {
            ((d + 55) as u8) as char
        };
        push_char(s, c);
        assert(hex_digits(n as nat, k as nat) == hex_digits((n / 16) as nat, (k - 1) as nat).push(c));
    }
}

impl ShmHeader {
    /// The default magic number, `TERM` in ASCII.
    pub const DEFAULT_MAGIC: u32 = 0x5445_524D;

    /// The default protocol version.
    pub const DEFAULT_VERSION: u32 = 1;

    /// Validates against the default magic number and version.
    pub fn validate(&self) -> (r: Result<(), IpcError>)
        ensures
            r is Ok <==> self.magic == 0x5445_524D && self.version == 1,
            self.magic != 0x5445_524D ==> (r matches Err(IpcError::InvalidData(m)) && m@
                == bad_magic_message(0x5445_524D, self.magic)),
            self.magic == 0x5445_524D && self.version != 1 ==> (r matches Err(IpcError::InvalidData(m))
                && m@ == bad_version_message(1, self.version)),
    {
        self.validate_with(Self::DEFAULT_MAGIC, Self::DEFAULT_VERSION)
    }

    /// Validates against a magic number and version: the magic number is
    /// checked first.
    pub fn validate_with(&self, expected_magic: u32, expected_version: u32) -> (r: Result<(), IpcError>)
        ensures
            r is Ok <==> self.magic == expected_magic && self.version == expected_version,
            self.magic != expected_magic ==> (r matches Err(IpcError::InvalidData(m)) && m@
                == bad_magic_message(expected_magic, self.magic)),
            self.magic == expected_magic && self.version != expected_version ==> (r matches Err(
                IpcError::InvalidData(m),
            ) && m@ == bad_version_message(expected_version, self.version)),
    {
        if self.magic != expected_magic {
            let mut m = String::new();
            m.append("Invalid magic: expected 0x");
            push_hex(&mut m, expected_magic, 8);
            m.append(", got 0x");
            push_hex(&mut m, self.magic, 8);
            return Err(IpcError::InvalidData(m));
        }
        if self.version != expected_version {
            let mut m = String::new();
            m.append("Unsupported version: expected ");
            push_decimal(&mut m, expected_version as u64);
            m.append(", got ");
            push_decimal(&mut m, self.version as u64);
            return Err(IpcError::InvalidData(m));
        }
        Ok(())
    }
}


/// The size in bytes of the shared memory header.
pub open spec fn header_size() -> nat {
    36
}

/// What `String::from_utf8_lossy` gives: invalid sequences become U+FFFD.
pub uninterp spec fn utf8_lossy(bytes: Seq<u8>) -> Seq<char>;

/// `String::from_utf8_lossy`. Trusted: the text is named by `utf8_lossy`,
/// and valid UTF-8 decodes as it is (the documentation's promise).
#[verifier::external_body]
fn decode_lossy(bytes: &[u8]) -> (r: String)
    ensures
        r@ == utf8_lossy(bytes@),
        valid_utf8(bytes@) ==> r@ == decode_utf8(bytes@),
{
    String::from_utf8_lossy(bytes).to_string()
}

/// The grid text laid out in rows of `cols` characters: a newline before
/// every character whose index is a positive multiple of `cols`.
pub open spec fn grid_layout(t: Seq<char>, cols: nat) -> Seq<char>
    decreases t.len(),
{
    if t.len() == 0 {
        Seq::empty()
    } else {
        let p = grid_layout(t.drop_last(), cols);
        if t.len() > 1 && (t.len() - 1) % (cols as int) == 0 {
            p.push('\n').push(t.last())
        } else {
            p.push(t.last())
        }
    }
}

/// A text laid out as rows of `cols` characters joined with newlines.
pub fn grid_layout_text(text: &str, cols: u16) -> (r: String)
    requires
        cols > 0,
    ensures
        r@ == grid_layout(text@, cols as nat),
{
    let t = str_chars(text);
    let mut out = String::new();
    let mut i: usize = 0;
    let c: usize = cols as usize;
    while i < t.len()
        invariant
            i <= t@.len(),
            c == cols,
            c > 0,
            out@ == grid_layout(t@.subrange(0, i as int), cols as nat),
        decreases t@.len() - i,
    {
        let ghost before = t@.subrange(0, i as int);
        assert(t@.subrange(0, i + 1).drop_last() =~= before);
        if i > 0 && i % c == 0 {
            push_char(&mut out, '\n');
        }
        push_char(&mut out, t[i]);
        i = i + 1;
    }
    assert(t@.subrange(0, t@.len() as int) =~= t@);
    out
}

/// The grid bytes of shared memory as rows of `cols` characters joined with
/// newlines; the bytes are decoded as UTF-8 with invalid sequences replaced.
pub fn grid_text(grid: &[u8], cols: u16) -> (r: String)
    requires
        cols > 0,
    ensures
        r@ == grid_layout(utf8_lossy(grid@), cols as nat),
{
    let text = decode_lossy(grid);
    grid_layout_text(text.as_str(), cols)
}

/// The grid of shared memory of `mem_size` bytes: `Ok((offset, size))` when
/// it lies inside, else an `InvalidData` error.
pub fn grid_span(header: &ShmHeader, mem_size: usize) -> (r: Result<(usize, usize), IpcError>)
    ensures
        header.grid_offset + header.grid_size <= mem_size ==> r == Ok::<(usize, usize), IpcError>(
            (header.grid_offset as usize, header.grid_size as usize),
        ),
        header.grid_offset + header.grid_size > mem_size ==> (r matches Err(IpcError::InvalidData(m))
            && m@ == "Grid extends beyond shared memory"@),
{
    let end: u64 = header.grid_offset as u64 + header.grid_size as u64;
    if end > mem_size as u64 {
        return Err(IpcError::InvalidData(String::from_str("Grid extends beyond shared memory")));
    }
    Ok((header.grid_offset as usize, header.grid_size as usize))
}

/// The message of a position outside the grid.
pub open spec fn out_of_bounds_message(row: u16, col: u16, rows: u16, cols: u16) -> Seq<char> {
    "Position ("@ + decimal(row as nat) + ", "@ + decimal(col as nat) + ") out of bounds ("@ + decimal(
        rows as nat,
    ) + "x"@ + decimal(cols as nat) + ")"@
}

/// The byte index in shared memory of the cell at (row, col): the grid
/// offset plus `row * cols + col`.
pub fn cell_index(header: &ShmHeader, mem_size: usize, row: u16, col: u16) -> (r: Result<usize, IpcError>)
    ensures
        (row >= header.rows || col >= header.cols) ==> (r matches Err(IpcError::InvalidData(m)) && m@
            == out_of_bounds_message(row, col, header.rows, header.cols)),
        (row < header.rows && col < header.cols && header.grid_offset + row * header.cols + col
            >= mem_size) ==> (r matches Err(IpcError::InvalidData(m)) && m@ == "Cell index out of bounds"@),
        (row < header.rows && col < header.cols && header.grid_offset + row * header.cols + col
            < mem_size) ==> r == Ok::<usize, IpcError>((header.grid_offset + row * header.cols + col) as usize),
{
    if row >= header.rows || col >= header.cols {
        let mut m = String::new();
        m.append("Position (");
        push_decimal(&mut m, row as u64);
        m.append(", ");
        push_decimal(&mut m, col as u64);
        m.append(") out of bounds (");
        push_decimal(&mut m, header.rows as u64);
        m.append("x");
        push_decimal(&mut m, header.cols as u64);
        m.append(")");
        return Err(IpcError::InvalidData(m));
    }
    assert(row * header.cols <= 65535 * 65535) by (nonlinear_arith)
        requires
            row < 65536,
            header.cols < 65536,
    ;
    let index: u64 = (row as u64) * (header.cols as u64) + col as u64;
    let at: u64 = header.grid_offset as u64 + index;
    if at >= mem_size as u64 {
        return Err(IpcError::InvalidData(String::from_str("Cell index out of bounds")));
    }
    Ok(at as usize)
}

/// The message of a grid that lacks an expected text.
pub open spec fn missing_text_message(text: Seq<char>, grid: Seq<char>) -> Seq<char> {
    "Expected grid to contain '"@ + text + "', but it didn't.\nGrid:\n"@ + grid
}

/// `Ok` when `text` occurs in the grid text, else an `InvalidData` error
/// that shows the grid.
pub fn check_grid_contains(grid: &str, text: &str) -> (r: Result<(), IpcError>)
    ensures
        r is Ok <==> occurs_in(grid@, text@),
        r matches Err(e) ==> (e matches IpcError::InvalidData(m) && m@ == missing_text_message(
            text@,
            grid@,
        )),
{
    let g = str_chars(grid);
    let t = str_chars(text);
    if seq_contains(&g, &t) {
        return Ok(());
    }
    let mut m = String::new();
    m.append("Expected grid to contain '");
    m.append(text);
    m.append("', but it didn't.\nGrid:\n");
    m.append(grid);
    Err(IpcError::InvalidData(m))
}

/// What a polling wait on the daemon's screen does next.
#[derive(Debug, Clone, Copy, PartialEq, Eq, Structural)]
pub enum DaemonWaitStep {
    /// The condition holds: the wait succeeds.
    Done,
    /// The time is up: the wait fails with a timeout.
    TimedOut,
    /// Sleep, refresh and look again.
    Poll,
}

/// The next step of a wait on the daemon's screen after a refresh: done
/// when the condition holds, a timeout once `elapsed` reaches `timeout`,
/// else another poll.
pub fn daemon_wait_step(met: bool, elapsed_nanos: u128, timeout_nanos: u128) -> (s: DaemonWaitStep)
    ensures
        s == if met {
            DaemonWaitStep::Done
        } else if elapsed_nanos >= timeout_nanos {
            DaemonWaitStep::TimedOut
        } else {
            DaemonWaitStep::Poll
        },
{
    if met {
        DaemonWaitStep::Done
    } else if elapsed_nanos >= timeout_nanos {
        DaemonWaitStep::TimedOut
    } else {
        DaemonWaitStep::Poll
    }
}

/// The time left of a wait for a sequence of texts: `None` once nothing is
/// left, else the rest of the timeout.
pub fn sequence_remaining(timeout_nanos: u128, elapsed_nanos: u128) -> (r: Option<u128>)
    ensures
        elapsed_nanos >= timeout_nanos ==> r is None,
        elapsed_nanos < timeout_nanos ==> r == Some((timeout_nanos - elapsed_nanos) as u128),
{
    if elapsed_nanos >= timeout_nanos {
        None
    } else {
        Some(timeout_nanos - elapsed_nanos)
    }
}

/// What the last step of opening shared memory gave.
pub enum ShmOpenEvent {
    /// Nothing was done yet.
    Start,
    /// The path holds a NUL byte and cannot be passed on.
    PathRejected,
    /// The segment was opened.
    Opened,
    /// The segment could not be opened.
    OpenFailed,
    /// The segment's size was read.
    Sized(usize),
    /// The segment's size could not be read.
    StatFailed,
    /// The segment was mapped.
    Mapped,
    /// The segment could not be mapped.
    MapFailed,
    /// The header was read from the mapping.
    HeaderRead(ShmHeader),
}

/// What opening shared memory does next.
pub enum ShmOpenAction {
    /// Open the segment.
    Open,
    /// Read the segment's size.
    Stat,
    /// Map this many bytes.
    MapBytes(usize),
    /// Read the header from the mapping.
    ReadHeader,
    /// Give up (closing what was opened) with this error.
    Fail(IpcError),
    /// The header is valid: the segment is ready.
    Ready(ShmHeader),
}

/// The next step of opening the shared memory segment at `path`, whose
/// header must carry `magic` and `version`.
pub fn shm_open_step(path: &str, magic: u32, version: u32, event: ShmOpenEvent) -> (a: ShmOpenAction)
    ensures
        event is Start ==> a is Open,
        event is PathRejected ==> (a matches ShmOpenAction::Fail(IpcError::InvalidData(m)) && m@
            == "Invalid shm path"@),
        event is Opened ==> a is Stat,
        event is OpenFailed ==> (a matches ShmOpenAction::Fail(IpcError::SharedMemoryNotFound(p))
            && p@ == path@),
        event is StatFailed ==> (a matches ShmOpenAction::Fail(IpcError::MmapFailed(m)) && m@
            == "fstat failed"@),
        event matches ShmOpenEvent::Sized(n) ==> (if n < header_size() {
            a matches ShmOpenAction::Fail(IpcError::InvalidData(m)) && m@
                == "Shared memory too small for header"@
        } else {
            a == ShmOpenAction::MapBytes(n)
        }),
        event is Mapped ==> a is ReadHeader,
        event is MapFailed ==> (a matches ShmOpenAction::Fail(IpcError::MmapFailed(m)) && m@
            == "mmap failed"@),
        event matches ShmOpenEvent::HeaderRead(h) ==> (if h.magic == magic && h.version == version {
            a == ShmOpenAction::Ready(h)
        } else if h.magic != magic {
            a matches ShmOpenAction::Fail(IpcError::InvalidData(m)) && m@ == bad_magic_message(magic, h.magic)
        } else {
            a matches ShmOpenAction::Fail(IpcError::InvalidData(m)) && m@ == bad_version_message(
                version,
                h.version,
            )
        }),
{
    match event {
        ShmOpenEvent::Start => ShmOpenAction::Open,
        ShmOpenEvent::PathRejected => ShmOpenAction::Fail(
            IpcError::InvalidData(String::from_str("Invalid shm path")),
        ),
        ShmOpenEvent::Opened => ShmOpenAction::Stat,
        ShmOpenEvent::OpenFailed => ShmOpenAction::Fail(
            IpcError::SharedMemoryNotFound(String::from_str(path)),
        ),
        ShmOpenEvent::Sized(n) => {
            if n < 36 {
                ShmOpenAction::Fail(
                    IpcError::InvalidData(String::from_str("Shared memory too small for header")),
                )
            } else {
                ShmOpenAction::MapBytes(n)
            }
        },
        ShmOpenEvent::StatFailed => ShmOpenAction::Fail(IpcError::MmapFailed(String::from_str("fstat failed"))),
        ShmOpenEvent::Mapped => ShmOpenAction::ReadHeader,
        ShmOpenEvent::MapFailed => ShmOpenAction::Fail(IpcError::MmapFailed(String::from_str("mmap failed"))),
        ShmOpenEvent::HeaderRead(h) => match h.validate_with(magic, version) {
            Ok(()) => ShmOpenAction::Ready(h),
            Err(e) => ShmOpenAction::Fail(e),
        },
    }
}

/// What `Path::display` shows of a path.
pub uninterp spec fn path_display(p: std::path::PathBuf) -> Seq<char>;

/// The text of a path (`Path::display`). Trusted: the text is named by
/// `path_display`, a function of the path alone.
#[verifier::external_body]
fn path_text(p: &std::path::PathBuf) -> (r: String)
    ensures
        r@ == path_display(*p),
{
    p.display().to_string()
}

/// What `Debug` shows of a duration (such as `1.5s`).
pub uninterp spec fn duration_debug(d: std::time::Duration) -> Seq<char>;

/// The `Debug` text of a duration. Trusted: the text is named by
/// `duration_debug`, a function of the duration alone.
#[verifier::external_body]
fn duration_text(d: &std::time::Duration) -> (r: String)
    ensures
        r@ == duration_debug(*d),
{
    format!("{:?}", d)
}

/// The message of each error; `detail` stands for the text of a path, an
/// I/O error or a duration, which the standard library renders.
pub open spec fn ipc_message(e: IpcError, detail: Seq<char>) -> Seq<char> {
    match e {
        IpcError::SocketNotFound(_) => "Daemon socket not found at: "@ + detail,
        IpcError::ConnectionFailed(_) => "Failed to connect to daemon: "@ + detail,
        IpcError::SendFailed(_) => "Failed to send IPC message: "@ + detail,
        IpcError::SharedMemoryNotFound(p) => "Shared memory not found at: "@ + p@,
        IpcError::MmapFailed(m) => "Failed to map shared memory: "@ + m@,
        IpcError::Timeout(_) => "Timeout after "@ + detail + " waiting for condition"@,
        IpcError::InvalidData(m) => "Invalid shared memory data: "@ + m@,
        IpcError::SpawnFailed(_) => "Failed to spawn daemon: "@ + detail,
        IpcError::Io(_) => "I/O error: "@ + detail,
        IpcError::TestingDisabled => "RTL_IPC_TEST environment variable not set - IPC testing disabled"@,
    }
}

/// `prefix` then `s`.
fn joined(prefix: &str, s: &str) -> (r: String)
    ensures
        r@ == prefix@ + s@,
{
    let mut out = String::new();
    out.append(prefix);
    out.append(s);
    out
}

/// `prefix`, `s`, then `suffix`.
fn framed(prefix: &str, s: &str, suffix: &str) -> (r: String)
    ensures
        r@ == prefix@ + s@ + suffix@,
{
    let mut out = String::new();
    out.append(prefix);
    out.append(s);
    out.append(suffix);
    out
}

impl IpcError {
    /// The human-readable message of the error (what its `Display` shows).
    pub fn message(&self) -> (r: String)
        ensures
            exists|d: Seq<char>| r@ == ipc_message(*self, d),
            (self is SharedMemoryNotFound || self is MmapFailed || self is InvalidData
                || self is TestingDisabled) ==> r@ == ipc_message(*self, Seq::empty()),
            self matches IpcError::SocketNotFound(p) ==> r@ == ipc_message(*self, path_display(*p)),
            self matches IpcError::Timeout(d) ==> r@ == ipc_message(*self, duration_debug(*d)),
    {
        let r = match self {
            IpcError::SocketNotFound(p) => {
                let t = path_text(p);
                let r = joined("Daemon socket not found at: ", t.as_str());
                assert(r@ == ipc_message(*self, t@));
                r
            },
            IpcError::ConnectionFailed(e) => {
                let t = crate::error::io_error_text(e);
                let r = joined("Failed to connect to daemon: ", t.as_str());
                assert(r@ == ipc_message(*self, t@));
                r
            },
            IpcError::SendFailed(e) => {
                let t = crate::error::io_error_text(e);
                let r = joined("Failed to send IPC message: ", t.as_str());
                assert(r@ == ipc_message(*self, t@));
                r
            },
            IpcError::SharedMemoryNotFound(p) => {
                let r = joined("Shared memory not found at: ", p.as_str());
                assert(r@ == ipc_message(*self, Seq::empty()));
                r
            },
            IpcError::MmapFailed(m) => {
                let r = joined("Failed to map shared memory: ", m.as_str());
                assert(r@ == ipc_message(*self, Seq::empty()));
                r
            },
            IpcError::Timeout(d) => {
                let t = duration_text(d);
                let r = framed("Timeout after ", t.as_str(), " waiting for condition");
                assert(r@ == ipc_message(*self, t@));
                r
            },
            IpcError::InvalidData(m) => {
                let r = joined("Invalid shared memory data: ", m.as_str());
                assert(r@ == ipc_message(*self, Seq::empty()));
                r
            },
            IpcError::SpawnFailed(e) => {
                let t = crate::error::io_error_text(e);
                let r = joined("Failed to spawn daemon: ", t.as_str());
                assert(r@ == ipc_message(*self, t@));
                r
            },
            IpcError::Io(e) => {
                let t = crate::error::io_error_text(e);
                let r = joined("I/O error: ", t.as_str());
                assert(r@ == ipc_message(*self, t@));
                r
            },
            IpcError::TestingDisabled => {
                let r = String::from_str("RTL_IPC_TEST environment variable not set - IPC testing disabled");
                assert(r@ == ipc_message(*self, Seq::empty()));
                r
            },
        };
        r
    }
}

} // verus!
