use std::cell::RefCell;

use noise::utils::{NoiseMapBuilder, PlaneMapBuilder};
use noise::{Billow, Perlin};
use voxel_world::generator::{is_in_footprint, DepthMap, GeneratorError, WorldGenerator};
use voxel_world::position::Position;
use voxel_world::voxel::Rotation;

fn cells(world: &WorldGenerator, reach: i32) -> Vec<(i32, i32, i32)> {
    let mut found = Vec::new();
    for x in -reach..=reach {
        for y in -reach..=reach {
            for z in -reach..=reach {
                if world.at(Position::new(x, y, z)).is_some() {
                    found.push((x, y, z));
                }
            }
        }
    }
    found
}

fn sampled(seed: u32, size: u32) -> Vec<i32> {
    let billow = Billow::<Billow<Perlin>>::new(seed);
    let noise_map = PlaneMapBuilder::<_, 2>::new(billow)
        .set_size(size as usize, size as usize)
        .set_x_bounds(-1.0, 1.0)
        .set_y_bounds(-1.0, 1.0)
        .build();
    let mut depths = Vec::new();
    for z in 0..size as usize {
        for x in 0..size as usize {
            depths.push((noise_map.get_value(x, z) * 2.0) as i32);
        }
    }
    depths
}

#[test]
fn depth_map_wants_one_sample_per_column() {
    assert!(DepthMap::new(2, vec![0, 0, 0, 0]).is_ok());
    assert!(DepthMap::new(0, vec![]).is_ok());
    assert!(matches!(DepthMap::new(2, vec![0, 0, 0]), Err(GeneratorError::SampleCount)));
    assert!(matches!(DepthMap::new(2, vec![0; 5]), Err(GeneratorError::SampleCount)));
    assert!(matches!(DepthMap::new(0, vec![1]), Err(GeneratorError::SampleCount)));
    assert!(matches!(DepthMap::new(u32::MAX, vec![1]), Err(GeneratorError::SampleCount)));
}

#[test]
fn depth_map_files_samples_row_after_row() {
    let map = DepthMap::new(3, vec![10, 11, 12, 20, 21, 22, 30, 31, 32]).unwrap();
    assert_eq!(map.size(), 3);
    assert_eq!(map.get_value(0, 0), 10);
    assert_eq!(map.get_value(2, 0), 12);
    assert_eq!(map.get_value(0, 1), 20);
    assert_eq!(map.get_value(1, 2), 31);
    assert_eq!(map.get_value(2, 2), 32);
}

#[test]
fn depth_map_is_zero_outside_the_plane() {
    let map = DepthMap::new(2, vec![5, 6, 7, 8]).unwrap();
    assert_eq!(map.get_value(2, 0), 0);
    assert_eq!(map.get_value(0, 2), 0);
    assert_eq!(map.get_value(u32::MAX, u32::MAX), 0);
}

#[test]
fn footprint_is_the_disc_of_half_the_size() {
    let mut inside = Vec::new();
    for x in 0..4 {
        for z in 0..4 {
            if is_in_footprint(4, x, z) {
                inside.push((x, z));
            }
        }
    }
    assert_eq!(
        inside,
        vec![(0, 2), (1, 1), (1, 2), (1, 3), (2, 0), (2, 1), (2, 2), (2, 3), (3, 1), (3, 2), (3, 3)]
    );
    assert!(!is_in_footprint(4, 4, 2));
    assert!(!is_in_footprint(4, 2, 4));
    assert!(!is_in_footprint(0, 0, 0));
    assert!(is_in_footprint(1, 0, 0));
    assert!(is_in_footprint(u32::MAX, u32::MAX / 2, 0));
    assert!(!is_in_footprint(u32::MAX, 0, 0));
}

#[test]
fn columns_hang_below_height_zero() {
    let map = DepthMap::new(3, vec![0, 0, 0, 0, 2, 0, 0, 0, 0]).unwrap();
    let world = WorldGenerator::from_depth_map(7, &map);
    assert_eq!(world.seed(), 7);
    assert_eq!(world.size(), 3);
    assert_eq!(cells(&world, 4), vec![(0, -2, 0), (0, -1, 0)]);
    assert_eq!(world.at(Position::new(0, -1, 0)).unwrap().position(), Position::new(0, -1, 0));
}

#[test]
fn columns_are_centered_on_the_origin() {
    let map = DepthMap::new(3, vec![1, 0, 0, 0, 0, 0, 0, 0, 3]).unwrap();
    let world = WorldGenerator::from_depth_map(0, &map);
    assert_eq!(cells(&world, 4), vec![(-1, -1, -1), (1, -3, 1), (1, -2, 1), (1, -1, 1)]);
}

#[test]
fn columns_outside_the_disc_stay_empty() {
    let map = DepthMap::new(4, vec![1; 16]).unwrap();
    let world = WorldGenerator::from_depth_map(0, &map);
    let found = cells(&world, 4);
    assert_eq!(found.len(), 11);
    assert!(!found.contains(&(-2, -1, -2)));
    assert!(!found.contains(&(-2, -1, -1)));
    assert!(found.contains(&(-2, -1, 0)));
    assert!(found.contains(&(1, -1, 1)));
}

#[test]
fn samples_that_are_not_positive_give_no_voxels() {
    let map = DepthMap::new(2, vec![0, -1, i32::MIN, -7]).unwrap();
    let world = WorldGenerator::from_depth_map(3, &map);
    assert!(cells(&world, 4).is_empty());
    assert!(world.to_instances().is_empty());
}

#[test]
fn plane_without_columns_gives_an_empty_world() {
    let map = DepthMap::new(0, vec![]).unwrap();
    let world = WorldGenerator::from_depth_map(9, &map);
    assert_eq!(world.size(), 0);
    assert!(cells(&world, 2).is_empty());
}

#[test]
fn single_column_stands_at_the_origin() {
    let map = DepthMap::new(1, vec![2]).unwrap();
    let world = WorldGenerator::from_depth_map(1, &map);
    assert_eq!(cells(&world, 3), vec![(0, -2, 0), (0, -1, 0)]);
}

#[test]
fn terrain_surface_leaves_out_enclosed_voxels() {
    let map = DepthMap::new(3, vec![3; 9]).unwrap();
    let world = WorldGenerator::from_depth_map(0, &map);
    assert_eq!(cells(&world, 4).len(), 27);
    let instances = world.to_instances();
    assert_eq!(instances.len(), 26);
    for instance in &instances {
        assert_ne!(instance.position, Position::new(0, -2, 0));
        assert_eq!(instance.rotation, Rotation::zero());
        assert!(world.at(instance.position).is_some());
    }
}

#[test]
fn same_seed_and_size_give_the_same_world() {
    let first = WorldGenerator::from_seed(42, 16, &sampled).unwrap();
    let second = WorldGenerator::from_seed(42, 16, &sampled).unwrap();
    assert_eq!(first.seed(), 42);
    assert_eq!(first.size(), 16);
    let found = cells(&first, 9);
    assert!(!found.is_empty());
    assert_eq!(found, cells(&second, 9));
    let mut a: Vec<(i32, i32, i32)> =
        first.to_instances().iter().map(|i| (i.position.x, i.position.y, i.position.z)).collect();
    let mut b: Vec<(i32, i32, i32)> =
        second.to_instances().iter().map(|i| (i.position.x, i.position.y, i.position.z)).collect();
    a.sort();
    b.sort();
    assert_eq!(a, b);
    for (x, y, z) in found {
        assert!((-8..8).contains(&x) && (-8..8).contains(&z) && y < 0);
    }
}

#[test]
fn from_seed_asks_the_source_once_with_seed_and_size() {
    let asked = RefCell::new(Vec::new());
    let source = |seed: u32, size: u32| {
        asked.borrow_mut().push((seed, size));
        vec![0, 0, 0, 0, 2, 0, 0, 0, 0]
    };
    let world = WorldGenerator::from_seed(77, 3, &source).unwrap();
    assert_eq!(*asked.borrow(), vec![(77, 3)]);
    assert_eq!(world.seed(), 77);
    assert_eq!(world.size(), 3);
    assert_eq!(cells(&world, 4), vec![(0, -2, 0), (0, -1, 0)]);
}

#[test]
fn from_seed_rejects_a_plane_of_the_wrong_size() {
    let short = |_seed: u32, _size: u32| vec![1, 1, 1];
    assert!(matches!(WorldGenerator::from_seed(1, 2, &short), Err(GeneratorError::SampleCount)));
    let long = |_seed: u32, _size: u32| vec![1; 5];
    assert!(matches!(WorldGenerator::from_seed(1, 2, &long), Err(GeneratorError::SampleCount)));
}

#[test]
fn from_random_seed_reports_the_seed_it_drew() {
    let asked = RefCell::new(Vec::new());
    let source = |seed: u32, size: u32| {
        asked.borrow_mut().push((seed, size));
        vec![1; 4]
    };
    let mut rng = rand::thread_rng();
    let world = WorldGenerator::from_random_seed(&mut rng, 2, &source).unwrap();
    assert_eq!(*asked.borrow(), vec![(world.seed(), 2)]);
    assert_eq!(world.size(), 2);
    let again = WorldGenerator::from_seed(world.seed(), 2, &source).unwrap();
    assert_eq!(cells(&world, 3), cells(&again, 3));
    assert_eq!(cells(&world, 3), vec![(-1, -1, 0), (0, -1, -1), (0, -1, 0)]);
}

#[test]
fn from_random_seed_rejects_a_plane_of_the_wrong_size() {
    let short = |_seed: u32, _size: u32| Vec::new();
    let mut rng = rand::thread_rng();
    assert!(matches!(
        WorldGenerator::from_random_seed(&mut rng, 4, &short),
        Err(GeneratorError::SampleCount)
    ));
    assert!(WorldGenerator::from_random_seed(&mut rng, 0, &short).is_ok());
}
