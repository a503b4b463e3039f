//! Engine configuration and the checks it must pass before the engine starts.

use vstd::prelude::*;
use crate::text::{append_u64, decimal_digits};
use crate::world_types::WorldGeneratorType;

verus! {

/// Edge of a chunk in voxels.
pub const CHUNK_SIZE: u32 = 50;
/// Voxels in a chunk of the default size.
pub const VOXELS_PER_CHUNK: u32 = 125000;
/// Bytes of GPU memory per voxel.
pub const VOXEL_DATA_SIZE: u64 = 4;
/// Largest chunk edge the engine accepts.
pub const MAX_CHUNK_SIZE: u32 = 256;
/// Smallest window width the engine accepts.
pub const MIN_WINDOW_WIDTH: u32 = 320;
/// Smallest window height the engine accepts.
pub const MIN_WINDOW_HEIGHT: u32 = 240;
/// Largest window width or height the engine accepts.
pub const MAX_WINDOW_DIMENSION: u32 = 16384;

/// Main engine configuration.
pub struct EngineConfig {
    pub window_title: String,
    pub window_width: u32,
    pub window_height: u32,
    pub chunk_size: u32,
    pub render_distance: u32,
    pub world_generator_type: WorldGeneratorType,
}

impl Default for EngineConfig {
    fn default() -> (r: Self)
        ensures
            r.window_title@ == "Hearth Engine"@,
            r.window_width == 1280,
            r.window_height == 720,
            r.chunk_size == CHUNK_SIZE,
            r.render_distance == 8,
            r.world_generator_type is Default,
    {
        EngineConfig {
            window_title: String::from_str("Hearth Engine"),
            window_width: 1280,
            window_height: 720,
            chunk_size: CHUNK_SIZE,
            render_distance: 8,
            world_generator_type: WorldGeneratorType::Default,
        }
    }
}

/// Bytes of GPU memory that one chunk of edge `chunk_size` takes.
pub open spec fn chunk_memory(chunk_size: int) -> int {
    chunk_size * chunk_size * chunk_size * VOXEL_DATA_SIZE
}

/// Bytes of GPU memory that one chunk of edge `chunk_size` takes.
pub fn chunk_memory_bytes(chunk_size: u32) -> (r: u64)
    requires
        chunk_memory(chunk_size as int) <= u64::MAX,
    ensures
        r == chunk_memory(chunk_size as int),
{
    let c = chunk_size as u64;
    if c == 0 {
        return 0;
    }
    assert(c * c <= c * c * c) by (nonlinear_arith)
        requires
            c >= 1,
    ;
    assert(c * c * c <= c * c * c * 4) by (nonlinear_arith)
        requires
            c >= 1,
    ;
    c * c * c * VOXEL_DATA_SIZE
}

/// How many chunks of edge `chunk_size` fit in a GPU buffer binding of
/// `max_binding_size` bytes.
pub fn safe_chunk_count(chunk_size: u32, max_binding_size: u64) -> (r: u64)
    requires
        chunk_size > 0,
        chunk_memory(chunk_size as int) <= u64::MAX,
    ensures
        r == (max_binding_size as int) / chunk_memory(chunk_size as int),
{
    let bytes = chunk_memory_bytes(chunk_size);
    assert(chunk_memory(chunk_size as int) >= 1) by (nonlinear_arith)
        requires
            chunk_size >= 1,
    ;
    max_binding_size / bytes
}

/// The view distance whose square of chunks, `2 * d + 1` wide, fits in a cube of
/// `diameter` chunks.
pub open spec fn view_distance_of_diameter(diameter: int) -> int {
    if diameter == 0 {
        0
    } else {
        (diameter - 1) / 2
    }
}

/// The view distance whose square of chunks, `2 * d + 1` wide, fits in a cube of
/// `diameter` chunks.
pub fn view_distance_for_diameter(diameter: u32) -> (r: u32)
    ensures
        r == view_distance_of_diameter(diameter as int),
{
    diameter.saturating_sub(1) / 2
}

/// The configurations listed as safe, one per line after a heading.
pub open spec fn common_configs_text() -> Seq<char> {
    "Common safe configurations:"@ + "\n  - chunk_size="@ + decimal_digits(CHUNK_SIZE as nat)
        + ", view_distance=3 ("@ + decimal_digits((VOXELS_PER_CHUNK * 4 * 343 / 1024 / 1024) as nat)
        + "MB)"@ + "\n  - chunk_size="@ + decimal_digits(CHUNK_SIZE as nat) + ", view_distance=2 ("@
        + decimal_digits((VOXELS_PER_CHUNK * 4 * 125 / 1024 / 1024) as nat) + "MB)"@
        + "\n  - chunk_size=64, view_distance=1 (64MB)"@
}

/// The advice given for a configuration: the safe view distance of its chunk size
/// when that size is not zero, then the common safe configurations.
pub open spec fn suggestion_text(chunk_size: u32, safe_view_distance: u32) -> Seq<char> {
    (if chunk_size > 0 {
        "For chunk_size="@ + decimal_digits(chunk_size as nat) + ", maximum safe view_distance is "@
            + decimal_digits(safe_view_distance as nat) + "\n"@
    } else {
        Seq::empty()
    }) + common_configs_text()
}

/// What is wrong with a configuration, checked in this order, where
/// `max_safe_view_distance` is the largest view distance the GPU memory allows for its
/// chunk size; `None` when nothing is.
pub open spec fn config_error(
    chunk_size: u32,
    render_distance: u32,
    window_width: u32,
    window_height: u32,
    max_safe_view_distance: u32,
) -> Option<Seq<char>> {
    if chunk_size == 0 {
        Some("EngineConfig: chunk_size cannot be 0"@)
    } else if chunk_size > MAX_CHUNK_SIZE {
        Some("EngineConfig: chunk_size "@ + decimal_digits(chunk_size as nat) + " exceeds maximum of 256"@)
    } else if render_distance == 0 {
        Some("EngineConfig: render_distance cannot be 0"@)
    } else if render_distance > max_safe_view_distance {
        Some(
            "EngineConfig: render_distance "@ + decimal_digits(render_distance as nat)
                + " exceeds GPU memory limit. Maximum safe render_distance for chunk_size "@
                + decimal_digits(chunk_size as nat) + " is "@ + decimal_digits(
                max_safe_view_distance as nat,
            ) + ". "@ + suggestion_text(chunk_size, max_safe_view_distance),
        )
    } else if window_width < MIN_WINDOW_WIDTH || window_height < MIN_WINDOW_HEIGHT {
        Some("EngineConfig: Window dimensions too small (min 320x240)"@)
    } else if window_width > MAX_WINDOW_DIMENSION || window_height > MAX_WINDOW_DIMENSION {
        Some("EngineConfig: Window dimensions too large (max 16384x16384)"@)
    } else {
        None
    }
}

/// Appends the common safe configurations to `s`.
fn append_common_configs(s: &mut String)
    ensures
        final(s)@ == old(s)@ + common_configs_text(),
{
    let ghost start = s@;
    s.append("Common safe configurations:");
    s.append("\n  - chunk_size=");
    append_u64(s, CHUNK_SIZE as u64);
    s.append(", view_distance=3 (");
    append_u64(s, (VOXELS_PER_CHUNK as u64) * 4 * 343 / 1024 / 1024);
    s.append("MB)");
    s.append("\n  - chunk_size=");
    append_u64(s, CHUNK_SIZE as u64);
    s.append(", view_distance=2 (");
    append_u64(s, (VOXELS_PER_CHUNK as u64) * 4 * 125 / 1024 / 1024);
    s.append("MB)");
    s.append("\n  - chunk_size=64, view_distance=1 (64MB)");
    assert(s@ =~= start + common_configs_text());
}

impl EngineConfig {
    /// Advice for choosing a configuration, where `safe_view_distance` is the largest
    /// view distance the GPU memory allows for this chunk size (not used when the
    /// chunk size is zero).
    pub fn suggest_safe_config(&self, safe_view_distance: u32) -> (r: String)
        ensures
            r@ == suggestion_text(self.chunk_size, safe_view_distance),
    {
        let mut s = String::new();
        if self.chunk_size > 0 {
            s.append("For chunk_size=");
            append_u64(&mut s, self.chunk_size as u64);
            s.append(", maximum safe view_distance is ");
            append_u64(&mut s, safe_view_distance as u64);
            s.append("\n");
        }
        append_common_configs(&mut s);
        assert(s@ =~= suggestion_text(self.chunk_size, safe_view_distance));
        s
    }

    /// Checks the configuration, where `max_safe_view_distance` is the largest view
    /// distance the GPU memory allows for its chunk size: `Ok` when `config_error`
    /// finds nothing wrong, otherwise the first problem's message.
    pub fn validate(&self, max_safe_view_distance: u32) -> (r: Result<(), String>)
        ensures
            match r {
                Ok(()) => config_error(
                    self.chunk_size,
                    self.render_distance,
                    self.window_width,
                    self.window_height,
                    max_safe_view_distance,
                ) is None,
                Err(m) => config_error(
                    self.chunk_size,
                    self.render_distance,
                    self.window_width,
                    self.window_height,
                    max_safe_view_distance,
                ) == Some(m@),
            },
    {
        if self.chunk_size == 0 {
            return Err(String::from_str("EngineConfig: chunk_size cannot be 0"));
        }
        if self.chunk_size > MAX_CHUNK_SIZE {
            let mut m = String::from_str("EngineConfig: chunk_size ");
            append_u64(&mut m, self.chunk_size as u64);
            m.append(" exceeds maximum of 256");
            return Err(m);
        }
        if self.render_distance == 0 {
            return Err(String::from_str("EngineConfig: render_distance cannot be 0"));
        }
        if self.render_distance > max_safe_view_distance {
            let mut m = String::from_str("EngineConfig: render_distance ");
            append_u64(&mut m, self.render_distance as u64);
            m.append(" exceeds GPU memory limit. Maximum safe render_distance for chunk_size ");
            append_u64(&mut m, self.chunk_size as u64);
            m.append(" is ");
            append_u64(&mut m, max_safe_view_distance as u64);
            m.append(". ");
            let advice = self.suggest_safe_config(max_safe_view_distance);
            m.append(advice.as_str());
            return Err(m);
        }
        if self.window_width < MIN_WINDOW_WIDTH || self.window_height < MIN_WINDOW_HEIGHT {
            return Err(String::from_str("EngineConfig: Window dimensions too small (min 320x240)"));
        }
        if self.window_width > MAX_WINDOW_DIMENSION || self.window_height > MAX_WINDOW_DIMENSION {
            return Err(String::from_str("EngineConfig: Window dimensions too large (max 16384x16384)"));
        }
        Ok(())
    }
}

} // verus!
