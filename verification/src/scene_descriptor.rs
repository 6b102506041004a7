//! The scene's object lists and the header that tells the GPU how long they are.
use vstd::prelude::*;

verus! {

/// The header of the scene buffer: how many spheres and cuboids follow, padded to 16 bytes.
#[derive(Clone, Copy, Debug, PartialEq, Eq)]
pub struct SceneLengthDescriptor {
    spheres: u32,
    cuboids: u32,
    padding: [u32; 2],
}

impl SceneLengthDescriptor {
    /// The sphere count field.
    pub closed spec fn sphere_count(&self) -> u32 {
        self.spheres
    }

    /// The cuboid count field.
    pub closed spec fn cuboid_count(&self) -> u32 {
        self.cuboids
    }

    /// The header as the GPU reads it: sphere count, cuboid count, then two zero words.
    pub fn words(&self) -> (words: [u32; 4])
        ensures
            words@ == seq![self.sphere_count(), self.cuboid_count(), 0u32, 0u32],
    {
        proof {
            use_type_invariant(self);
        }
        let words = [self.spheres, self.cuboids, self.padding[0], self.padding[1]];
        assert(words@ =~= seq![self.sphere_count(), self.cuboid_count(), 0u32, 0u32]);
        words
    }

    #[verifier::type_invariant]
    spec fn zero_padding(self) -> bool {
        self.padding@ == seq![0u32, 0u32]
    }
}

/// The objects of a scene, of whatever sphere type `S` and cuboid type `C` the renderer
/// uses.
#[derive(Clone)]
pub struct SceneDescriptorBuilder<S, C> {
    pub spheres: Vec<S>,
    pub cuboids: Vec<C>,
}

impl<S, C> Default for SceneDescriptorBuilder<S, C> {
    /// A scene with no objects.
    fn default() -> (builder: Self)
        ensures
            builder.spheres@ == Seq::<S>::empty(),
            builder.cuboids@ == Seq::<C>::empty(),
    {
        SceneDescriptorBuilder { spheres: Vec::new(), cuboids: Vec::new() }
    }
}

impl<S, C> SceneDescriptorBuilder<S, C> {
    /// The header for this scene. Each count is the list's length converted to `u32`
    /// with `as`, so a list longer than `u32::MAX` has its count wrap around.
    pub fn length_descriptor(&self) -> (descriptor: SceneLengthDescriptor)
        ensures
            descriptor.sphere_count() == #[verifier::truncate] (self.spheres@.len() as u32),
            descriptor.cuboid_count() == #[verifier::truncate] (self.cuboids@.len() as u32),
    {
        SceneLengthDescriptor {
            spheres: #[verifier::truncate] (self.spheres.len() as u32),
            cuboids: #[verifier::truncate] (self.cuboids.len() as u32),
            padding: [0u32, 0u32],
        }
    }
}

} // verus!
