use glam::IVec3;
use spatialmap::SpatialMap;
use std::hint::black_box;
use std::time::Duration;

fn print_bench_time(label: &'static str, dim: [u32; 3], count: usize, time: Duration) {
    let total = count * (dim[0] * dim[1] * dim[2]) as usize;
    println!("{:<16} {:?} - {} ({}*[{}*{}*{}])", label, time, total, count, dim[0], dim[1], dim[2]);
}

#[test]
pub fn bench() {
    let count = black_box(1_000);
    let cap = black_box(64i32);
    let map_dim = black_box([cap as u32, cap as u32, cap as u32]);
    let mut map = SpatialMap::<u64>::with_capacity(map_dim);

    let time = std::time::Instant::now();
    for _ in 0..count {
        for x in 0..cap {
            for y in 0..cap {
                for z in 0..cap {
                    let pos = black_box([x, y, z]);
                    let q = map.insert(pos, 0);
                    black_box(q);
                }
            }
        }
    }
    print_bench_time("INSERT", map_dim, count, time.elapsed())
}

#[test]
pub fn glam_bench() {
    let count = black_box(1_000);
    let cap = black_box(64i32);
    let map_dim = black_box([cap as u32, cap as u32, cap as u32]);
    let mut map = SpatialMap::<u64>::with_capacity(map_dim);

    let time = std::time::Instant::now();
    for _ in 0..count {
        for x in 0..cap {
            for y in 0..cap {
                for z in 0..cap {
                    let pos = black_box(IVec3::new(x, y, z));
                    let q = map.insert(pos, 0);
                    black_box(q);
                }
            }
        }
    }
    print_bench_time("INSERT --glam", map_dim, count, time.elapsed())
}
