//! Timing of the per-instruction hot path as a dispatcher runs it:
//! discriminator extraction, argument parsing and offset tracking.

use std::time::Instant;

// ============================================================================
// Benchmark Utilities
// ============================================================================

/// Benchmark result with CU estimation
struct OverheadResult {
    name: &'static str,
    iterations: u32,
    per_op_ns: u128,
    estimated_cu: u128,
}

impl OverheadResult {
    fn print(&self) {
        println!(
            "OVERHEAD: {} iterations={} per_op_ns={} estimated_cu={}",
            self.name, self.iterations, self.per_op_ns, self.estimated_cu
        );
    }
}

/// Run a micro-benchmark and estimate CU
/// Note: CU estimation is heuristic (1 CU ≈ 10ns on host)
fn bench_overhead<F>(name: &'static str, iterations: u32, mut f: F) -> OverheadResult
where
    F: FnMut(),
{
    // Warmup
    for _ in 0..100 {
        f();
    }

    let start = Instant::now();
    for _ in 0..iterations {
        f();
    }
    let elapsed = start.elapsed();
    let per_op_ns = elapsed.as_nanos() / iterations as u128;

    OverheadResult {
        name,
        iterations,
        per_op_ns,
        estimated_cu: per_op_ns / 10, // Heuristic: 1 CU ≈ 10ns
    }
}

// ============================================================================
// Test Data
// ============================================================================

/// Simulated instruction data: 8-byte discriminator + 8-byte u64 argument
fn make_test_instruction_data() -> Vec<u8> {
    let mut data = vec![0u8; 16];
    // Discriminator (increment)
    data[0..8].copy_from_slice(&[0x0b, 0x12, 0x68, 0x09, 0x68, 0xae, 0x3b, 0x21]);
    // Amount: 1000u64
    data[8..16].copy_from_slice(&1000u64.to_le_bytes());
    data
}

// ============================================================================
// Phase 1: Baseline Measurements (Current Implementation)
// ============================================================================

/// Discriminator extraction as the checked implementation does it
/// Uses: try_into() + map_err()
#[test]
fn baseline_discriminator_extraction() {
    let data = make_test_instruction_data();

    let result = bench_overhead("baseline_discriminator", 100_000, || {
        // Current implementation pattern
        if data.len() < 8 {
            std::hint::black_box(false);
            return;
        }
        let discriminator: Result<[u8; 8], _> = data[..8].try_into();
        let disc = discriminator.map_err(|_| "error");
        std::hint::black_box(&disc);
    });

    result.print();
    println!("  Target: <10 CU (currently ~50 CU)");
}

/// Argument parsing as the checked implementation does it
/// Uses: get() + and_then() + ok_or() + from_le_bytes()
#[test]
fn baseline_argument_parsing() {
    let data = make_test_instruction_data();
    let args = &data[8..]; // After discriminator
    let offset: usize = 0;

    let result = bench_overhead("baseline_arg_u64", 100_000, || {
        // Current implementation pattern
        let amount: Result<u64, &str> = args
            .get(offset..offset + 8)
            .and_then(|s| s.try_into().ok())
            .map(u64::from_le_bytes)
            .ok_or("error");
        std::hint::black_box(&amount);
    });

    result.print();
    println!("  Target: <10 CU (currently ~70 CU)");
}

/// Mutable offset tracking
#[test]
fn baseline_offset_tracking() {
    let result = bench_overhead("baseline_offset_tracking", 100_000, || {
        // Current implementation pattern
        let mut offset: usize = 0;
        offset += 8; // discriminator
        offset += 8; // u64 arg
        offset += 4; // u32 arg
        offset += 1; // bool arg
        std::hint::black_box(&offset);
    });

    result.print();
    println!("  Target: 0 CU (compile-time calculation)");
}
