// The default world.

use rust_tracer::light::Light;
use rust_tracer::material::Material;
use rust_tracer::matrix::Matrix;
use rust_tracer::sphere::Sphere;
use rust_tracer::tuple::Tuple;
use rust_tracer::world::World;

const U: i64 = 10_000_000;

#[test]
fn default_world() {
    let light = Light::new(Tuple::color(U, U, U), Tuple::point(-10 * U, 10 * U, -10 * U));
    let mut m1 = Material::new();
    m1.color = Tuple::color(8_000_000, U, 6_000_000);
    m1.diffuse = 7_000_000;
    m1.specular = 2_000_000;
    let mut s1 = Sphere::new();
    s1.material = m1;
    let mut s2 = Sphere::new();
    s2.transform = Matrix::scaling(5_000_000, 5_000_000, 5_000_000);
    let w = World::new();
    assert!(
        w.light.intensity == light.intensity
            && w.light.position == light.position
            && *w.objects[0].get_material() == *s1.get_material()
            && w.objects[0].get_object_type() == s1.get_object_type()
            && *w.objects[0].get_transform() == *s1.get_transform()
            && *w.objects[0].get_origin() == *s1.get_origin()
            && *w.objects[1].get_material() == *s2.get_material()
            && w.objects[1].get_object_type() == s2.get_object_type()
            && *w.objects[1].get_transform() == *s2.get_transform()
            && *w.objects[1].get_origin() == *s2.get_origin(),
        "The default world was not created correctly."
    );
}
