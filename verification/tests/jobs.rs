use vk_compute_bench::actions::{Fill, Shader};
use vk_compute_bench::host::{Direction, HostRun};
use vk_compute_bench::job::{
    bench_matmul, bench_memory_bandwidth, bench_reduction, bench_saxpy, workgroups, BufferPlan,
    CopyPush, Groups, MatmulPush, ReducePush, SaxpyPush, SAXPY_FACTOR_BITS,
};

const N: usize = 16 * 1024 * 1024;

fn plan(size: u64, device_local: bool, fill: Fill) -> BufferPlan {
    BufferPlan { size, device_local, fill }
}

#[test]
fn factor_is_two_and_a_half() {
    assert_eq!(f32::from_bits(SAXPY_FACTOR_BITS), 2.5);
}

#[test]
fn workgroups_round_up() {
    assert_eq!(workgroups(0, 256), 0);
    assert_eq!(workgroups(1, 256), 1);
    assert_eq!(workgroups(256, 256), 1);
    assert_eq!(workgroups(257, 256), 2);
    assert_eq!(workgroups(N, 256), 65536);
    assert_eq!(workgroups(1024, 16), 64);
}

#[test]
fn workgroups_cover_and_are_no_more_than_needed() {
    for count in 1..600usize {
        let groups = workgroups(count, 256) as usize;
        assert!(groups * 256 >= count);
        assert!((groups - 1) * 256 < count);
    }
}

#[test]
fn push_constants_keep_their_order() {
    assert_eq!(SaxpyPush { a: 7, n: 8 }.words(), vec![7, 8]);
    assert_eq!(ReducePush { n: 9 }.words(), vec![9]);
    assert_eq!(MatmulPush { m: 1, n: 2, k: 3 }.words(), vec![1, 2, 3]);
    assert_eq!(CopyPush { n: 4 }.words(), vec![4]);
}

#[test]
fn memory_benchmarks() {
    let (copy, write, read) = bench_memory_bandwidth();
    assert_eq!(copy.shader, Shader::Copy);
    assert_eq!(copy.push, vec![N as u32]);
    assert_eq!(
        copy.buffers,
        vec![
            plan(64 * 1024 * 1024, false, Fill::Ramp { count: N }),
            plan(64 * 1024 * 1024, true, Fill::Empty),
        ]
    );
    assert_eq!(copy.groups, Groups { x: 65536, y: 1, z: 1 });
    assert_eq!(write, HostRun::new(Direction::Write, N));
    assert_eq!(read, HostRun::new(Direction::Read, N));
}

#[test]
fn saxpy_benchmark() {
    let job = bench_saxpy();
    assert_eq!(job.shader, Shader::Saxpy);
    assert_eq!(job.push, vec![2.5f32.to_bits(), N as u32]);
    assert_eq!(
        job.buffers,
        vec![
            plan(64 * 1024 * 1024, false, Fill::Random { count: N }),
            plan(64 * 1024 * 1024, false, Fill::Random { count: N }),
            plan(64 * 1024 * 1024, false, Fill::Empty),
        ]
    );
    assert_eq!(job.groups, Groups { x: 65536, y: 1, z: 1 });
}

#[test]
fn reduction_benchmark() {
    let job = bench_reduction();
    assert_eq!(job.shader, Shader::Reduce);
    assert_eq!(job.push, vec![N as u32]);
    assert_eq!(
        job.buffers,
        vec![
            plan(64 * 1024 * 1024, false, Fill::Ones { count: N }),
            plan(65536 * 4, false, Fill::Empty),
        ]
    );
    assert_eq!(job.groups, Groups { x: 65536, y: 1, z: 1 });
}

#[test]
fn matmul_benchmark() {
    let job = bench_matmul();
    let side = 1024 * 1024usize;
    assert_eq!(job.shader, Shader::Matmul);
    assert_eq!(job.push, vec![1024, 1024, 1024]);
    assert_eq!(
        job.buffers,
        vec![
            plan(4 * 1024 * 1024, false, Fill::Random { count: side }),
            plan(4 * 1024 * 1024, false, Fill::Random { count: side }),
            plan(4 * 1024 * 1024, false, Fill::Empty),
        ]
    );
    assert_eq!(job.groups, Groups { x: 64, y: 64, z: 1 });
}

#[test]
fn fills_know_their_length() {
    assert_eq!(Fill::Empty.len(), 0);
    assert!(Fill::Empty.is_empty());
    assert_eq!(Fill::Ramp { count: 3 }.len(), 3);
    assert_eq!(Fill::Random { count: 4 }.len(), 4);
    assert_eq!(Fill::Ones { count: 5 }.len(), 5);
    assert!(!Fill::Ones { count: 0 }.is_empty());
}

#[test]
fn planned_copies_fit() {
    let jobs = vec![
        bench_memory_bandwidth().0,
        bench_saxpy(),
        bench_reduction(),
        bench_matmul(),
    ];
    for job in jobs {
        for buffer in &job.buffers {
            assert!(buffer.fill.len() as u64 * 4 <= buffer.size);
            assert!(buffer.fill.is_empty() || !buffer.device_local);
        }
    }
}
