//! The 3D mesh representation. Covers OBJ, STL, PLY and GLTF/GLB (limited).
//! Floating-point values are kept as their IEEE-754 bit patterns.
use vstd::prelude::*;
use crate::ir::{api_version, version_of};
use crate::ir::sums::{sum_of, all_nonneg, lemma_sum_step, lemma_sum_all, lemma_sum_nonneg};
use crate::ir::traits::{IntermediateRepresentation, ValidationError, ValidationSeverity, issue, issues_view};
use crate::text::{decimal, u64_to_decimal};

verus! {

/// 3D content: meshes, materials, the scene graph and metadata.
#[derive(Debug)]
pub struct Mesh3DIR {
    pub version: semver::Version,
    pub meshes: Vec<Mesh>,
    pub materials: Vec<Material>,
    pub scene_graph: Option<SceneNode>,
    pub metadata: MeshMetadata,
}

#[derive(Debug)]
pub struct Mesh {
    pub name: String,
    pub vertices: Vec<Vertex>,
    pub faces: Vec<Face>,
    pub normals: Vec<[u32; 3]>,
    pub tex_coords: Vec<[u32; 2]>,
    pub material_index: Option<usize>,
}

/// A vertex; coordinates and colors are bit patterns of `f32` values.
#[derive(Debug)]
pub struct Vertex {
    pub position: [u32; 3],
    pub normal: Option<[u32; 3]>,
    pub tex_coord: Option<[u32; 2]>,
    pub color: Option<[u32; 4]>,
}

#[derive(Debug)]
pub enum Face {
    Triangle([u32; 3]),
    Quad([u32; 4]),
    Polygon(Vec<u32>),
}

/// A material; colors and factors are bit patterns of `f32` values.
#[derive(Debug)]
pub struct Material {
    pub name: String,
    pub diffuse_color: Option<[u32; 4]>,
    pub specular_color: Option<[u32; 4]>,
    pub ambient_color: Option<[u32; 4]>,
    pub shininess: Option<u32>,
    pub transparency: Option<u32>,
    pub diffuse_texture: Option<String>,
    pub normal_map: Option<String>,
}

/// A node of the scene graph; the 4x4 transform holds bit patterns of `f32` values.
#[derive(Debug)]
pub struct SceneNode {
    pub name: String,
    pub transform: [[u32; 4]; 4],
    pub mesh_index: Option<usize>,
    pub children: Vec<SceneNode>,
}

#[derive(Debug, Clone)]
pub struct MeshMetadata {
    pub source_format: String,
    pub unit: Option<String>,
    pub up_axis: Option<String>,
    pub vertex_count: usize,
    pub face_count: usize,
}

pub open spec fn vertex_counts(ms: Seq<Mesh>) -> Seq<int> {
    ms.map_values(|m: Mesh| m.vertices@.len() as int)
}

pub open spec fn face_counts(ms: Seq<Mesh>) -> Seq<int> {
    ms.map_values(|m: Mesh| m.faces@.len() as int)
}

/// The memory estimate of 3D content: 64 bytes per vertex, 32 per face, and 4 KiB.
pub open spec fn mesh_memory(m: Mesh3DIR) -> int {
    sum_of(vertex_counts(m.meshes@)) * 64 + sum_of(face_counts(m.meshes@)) * 32 + 4096
}

/// The problems reported for the first `n` meshes: one for each mesh without
/// vertices, in order.
pub open spec fn empty_mesh_issues(ms: Seq<Mesh>, n: int) -> Seq<(Seq<char>, Seq<char>, ValidationSeverity)>
    decreases n,
{
    if n <= 0 {
        seq![]
    } else if ms[n - 1].vertices@.len() == 0 {
        empty_mesh_issues(ms, n - 1).push(
            ("meshes["@ + decimal((n - 1) as nat) + "].vertices"@, "Mesh has no vertices"@, ValidationSeverity::Error),
        )
    } else {
        empty_mesh_issues(ms, n - 1)
    }
}

/// The problems `validate` reports: no meshes at all, then each mesh without vertices.
pub open spec fn mesh_issues(m: Mesh3DIR) -> Seq<(Seq<char>, Seq<char>, ValidationSeverity)> {
    let first: Seq<(Seq<char>, Seq<char>, ValidationSeverity)> = if m.meshes@.len() == 0 {
        seq![("meshes"@, "No meshes defined"@, ValidationSeverity::Warning)]
    } else {
        seq![]
    };
    first + empty_mesh_issues(m.meshes@, m.meshes@.len() as int)
}

/// Sums the lengths picked out of each mesh, where the sum fits.
fn sum_counts(meshes: &Vec<Mesh>, vertices: bool) -> (r: u64)
    requires
        vertices ==> sum_of(vertex_counts(meshes@)) <= u64::MAX,
        !vertices ==> sum_of(face_counts(meshes@)) <= u64::MAX,
    ensures
        vertices ==> r == sum_of(vertex_counts(meshes@)),
        !vertices ==> r == sum_of(face_counts(meshes@)),
{
    let ghost s = if vertices {
        vertex_counts(meshes@)
    } else {
        face_counts(meshes@)
    };
    proof {
        assert(all_nonneg(s));
        assert(s.take(0) =~= Seq::<int>::empty());
    }
    let mut acc: u64 = 0;
    let mut i: usize = 0;
    while i < meshes.len()
        invariant
            i <= meshes@.len(),
            s == (if vertices {
                vertex_counts(meshes@)
            } else {
                face_counts(meshes@)
            }),
            all_nonneg(s),
            sum_of(s) <= u64::MAX,
            acc == sum_of(s.take(i as int)),
        decreases meshes@.len() - i,
    {
        proof {
            lemma_sum_step(s, i as int);
        }
        let n = if vertices {
            meshes[i].vertices.len() as u64
        } else {
            meshes[i].faces.len() as u64
        };
        acc = acc + n;
        i = i + 1;
    }
    proof {
        lemma_sum_all(s);
    }
    acc
}

impl Mesh3DIR {
    /// Empty 3D content from the given source format.
    pub fn new(source_format: &str) -> (r: Self)
        ensures
            r.version == version_of(1, 0, 0),
            r.meshes@.len() == 0,
            r.materials@.len() == 0,
            r.scene_graph is None,
            r.metadata.source_format@ == source_format@,
            r.metadata.unit is None,
            r.metadata.up_axis is None,
            r.metadata.vertex_count == 0,
            r.metadata.face_count == 0,
    {
        Mesh3DIR {
            version: api_version(),
            meshes: Vec::new(),
            materials: Vec::new(),
            scene_graph: None,
            metadata: MeshMetadata {
                source_format: String::from_str(source_format),
                unit: None,
                up_axis: None,
                vertex_count: 0,
                face_count: 0,
            },
        }
    }

    /// The number of vertices over all meshes.
    pub fn total_vertices(&self) -> (r: usize)
        requires
            sum_of(vertex_counts(self.meshes@)) <= usize::MAX,
        ensures
            r == sum_of(vertex_counts(self.meshes@)),
    {
        sum_counts(&self.meshes, true) as usize
    }

    /// The number of faces over all meshes.
    pub fn total_faces(&self) -> (r: usize)
        requires
            sum_of(face_counts(self.meshes@)) <= usize::MAX,
        ensures
            r == sum_of(face_counts(self.meshes@)),
    {
        sum_counts(&self.meshes, false) as usize
    }
}

impl IntermediateRepresentation for Mesh3DIR {
    open spec fn usage_fits(&self) -> bool {
        mesh_memory(*self) <= u64::MAX
    }

    fn version(&self) -> (r: semver::Version)
        ensures
            r == self.version,
    {
        self.version.clone()
    }

    fn ir_type(&self) -> (r: &'static str)
        ensures
            r@ == "Mesh3D"@,
    {
        "Mesh3D"
    }

    /// The memory estimate: see [`mesh_memory`].
    fn memory_usage(&self) -> (r: u64)
        ensures
            r == mesh_memory(*self),
    {
        proof {
            assert(all_nonneg(vertex_counts(self.meshes@)));
            assert(all_nonneg(face_counts(self.meshes@)));
            lemma_sum_nonneg(vertex_counts(self.meshes@));
            lemma_sum_nonneg(face_counts(self.meshes@));
        }
        let v = sum_counts(&self.meshes, true);
        let f = sum_counts(&self.meshes, false);
        v * 64 + f * 32 + 4096
    }

    /// The problems found: see [`mesh_issues`].
    fn validate(&self) -> (r: Vec<ValidationError>)
        ensures
            issues_view(r@) == mesh_issues(*self),
    {
        let mut errors: Vec<ValidationError> = Vec::new();
        if self.meshes.len() == 0 {
            errors.push(issue("meshes", "No meshes defined", ValidationSeverity::Warning));
        }
        let ghost first = issues_view(errors@);
        let mut i: usize = 0;
        proof {
            assert(first + empty_mesh_issues(self.meshes@, 0) =~= first);
        }
        while i < self.meshes.len()
            invariant
                i <= self.meshes@.len(),
                issues_view(errors@) == first + empty_mesh_issues(self.meshes@, i as int),
            decreases self.meshes@.len() - i,
        {
            if self.meshes[i].vertices.len() == 0 {
                let index = u64_to_decimal(i as u64);
                let mut field = String::from_str("meshes[");
                field.append(index.as_str());
                field.append("].vertices");
                let ghost before = issues_view(errors@);
                errors.push(ValidationError {
                    field,
                    message: String::from_str("Mesh has no vertices"),
                    severity: ValidationSeverity::Error,
                });
                proof {
                    assert(issues_view(errors@) =~= before.push(
                        ("meshes["@ + decimal(i as nat) + "].vertices"@, "Mesh has no vertices"@, ValidationSeverity::Error),
                    ));
                }
            }
            proof {
                assert(issues_view(errors@) =~= first + empty_mesh_issues(self.meshes@, i + 1));
            }
            i = i + 1;
        }
        errors
    }

    /// Whether there are no meshes.
    fn is_empty(&self) -> (r: bool)
        ensures
            r == (self.meshes@.len() == 0),
    {
        self.meshes.len() == 0
    }
}

} // verus!
