use hearth_engine::soa::{CpuGpuBridge, SoaCompatible, SoaIterator, SoaOps};

#[derive(Debug, Clone, Copy, PartialEq)]
struct BlockDistribution {
    block_id: u32,
    min_height: i32,
    max_height: i32,
    probability: f32,
    noise_threshold: f32,
    _padding: [u32; 3],
}

#[derive(Debug, Default)]
struct BlockDistributionSoa {
    count: usize,
    block_ids: Vec<u32>,
    min_heights: Vec<i32>,
    max_heights: Vec<i32>,
    probabilities: Vec<f32>,
    noise_thresholds: Vec<f32>,
}

impl SoaCompatible for BlockDistribution {
    type Arrays = BlockDistributionSoa;

    fn to_soa(items: &[Self]) -> Self::Arrays {
        let mut soa = BlockDistributionSoa::default();
        for item in items {
            soa.block_ids.push(item.block_id);
            soa.min_heights.push(item.min_height);
            soa.max_heights.push(item.max_height);
            soa.probabilities.push(item.probability);
            soa.noise_thresholds.push(item.noise_threshold);
        }
        soa.count = items.len();
        soa
    }

    fn from_soa(arrays: &Self::Arrays, index: usize) -> Self {
        BlockDistribution {
            block_id: arrays.block_ids[index],
            min_height: arrays.min_heights[index],
            max_height: arrays.max_heights[index],
            probability: arrays.probabilities[index],
            noise_threshold: arrays.noise_thresholds[index],
            _padding: [0; 3],
        }
    }

    fn update_soa(arrays: &mut Self::Arrays, index: usize, item: &Self) {
        arrays.block_ids[index] = item.block_id;
        arrays.min_heights[index] = item.min_height;
        arrays.max_heights[index] = item.max_height;
        arrays.probabilities[index] = item.probability;
        arrays.noise_thresholds[index] = item.noise_threshold;
    }

    fn soa_count(arrays: &Self::Arrays) -> usize {
        arrays.count
    }
}

fn distributions() -> Vec<BlockDistribution> {
    vec![
        BlockDistribution {
            block_id: 1,
            min_height: 0,
            max_height: 10,
            probability: 0.5,
            noise_threshold: 0.3,
            _padding: [0; 3],
        },
        BlockDistribution {
            block_id: 2,
            min_height: 10,
            max_height: 20,
            probability: 0.3,
            noise_threshold: 0.5,
            _padding: [0; 3],
        },
    ]
}

#[test]
fn test_cpu_gpu_bridge() {
    let distributions = distributions();
    let soa_data = CpuGpuBridge::pack_for_gpu(&distributions);
    assert_eq!(soa_data.count, 2);

    let item: BlockDistribution = CpuGpuBridge::unpack_from_gpu(&soa_data, 0);
    assert_eq!(item.block_id, 1);
    assert_eq!(item.min_height, 0);

    let unpacked: Vec<BlockDistribution> = CpuGpuBridge::unpack_all(&soa_data);
    assert_eq!(unpacked.len(), 2);
    assert_eq!(unpacked[1].block_id, 2);
}

#[test]
fn test_soa_iterator() {
    let distributions = distributions();
    let soa_data = distributions.to_soa();
    let mut iter: SoaIterator<'_, BlockDistribution> = SoaIterator::new(&soa_data);
    let mut collected: Vec<BlockDistribution> = Vec::new();
    while let Some(item) = iter.next_item() {
        collected.push(item);
    }
    assert_eq!(collected.len(), 2);
    assert_eq!(collected[0].block_id, 1);
    assert_eq!(collected[1].block_id, 2);
}

#[test]
fn update_in_gpu_replaces_one_item() {
    let mut soa_data = CpuGpuBridge::pack_for_gpu(&distributions());
    let mut item = distributions()[0];
    item.block_id = 9;
    CpuGpuBridge::update_in_gpu(&mut soa_data, 1, &item);
    let all: Vec<BlockDistribution> = CpuGpuBridge::unpack_all(&soa_data);
    assert_eq!(all[0].block_id, 1);
    assert_eq!(all[1].block_id, 9);
}
