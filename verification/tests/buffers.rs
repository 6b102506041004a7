use ray_marcher::light_buffers::{LightBufferBuilder, LIGHT_SIZE, MAX_LIGHTS};
use ray_marcher::scene_descriptor::SceneDescriptorBuilder;

#[test]
fn light_table_layout() {
    let mut b = LightBufferBuilder::new();
    b.add([1u8; LIGHT_SIZE]);
    let mut second = [0u8; LIGHT_SIZE];
    for (i, byte) in second.iter_mut().enumerate() {
        *byte = i as u8;
    }
    b.add(second);
    let table = b.build();
    let bytes = table.lights();
    assert_eq!(bytes.len(), MAX_LIGHTS * LIGHT_SIZE);
    assert!(bytes[..32].iter().all(|&x| x == 1));
    assert_eq!(&bytes[32..64], &second[..]);
    assert!(bytes[64..].iter().all(|&x| x == 0));
    assert_eq!(table.lights_length(), 8);
}

#[test]
fn empty_light_table_still_counts_every_slot() {
    let table = LightBufferBuilder::default().build();
    assert!(table.lights().iter().all(|&x| x == 0));
    assert_eq!(table.lights_length(), MAX_LIGHTS as u32);
}

#[test]
fn scene_length_descriptor() {
    let mut scene: SceneDescriptorBuilder<f32, (f32, f32)> = SceneDescriptorBuilder::default();
    assert_eq!(scene.length_descriptor().words(), [0, 0, 0, 0]);
    scene.spheres.push(1.0);
    scene.cuboids.push((1.0, 2.0));
    scene.cuboids.push((3.0, 4.0));
    assert_eq!(scene.length_descriptor().words(), [1, 2, 0, 0]);
}
