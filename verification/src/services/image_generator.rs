use vstd::prelude::*;
use vstd::string::*;

verus! {

/// One element pasted onto an image: the distraction or the object at that position
/// of the recipe.
#[derive(Debug, Clone, Copy, PartialEq, Eq, Structural)]
pub enum PasteStep {
    Distraction(usize),
    Object(usize),
}

/// The order elements are pasted in: every distraction, in order, then every object,
/// in order, so objects are never hidden behind distractions.
pub open spec fn paste_plan(distraction_count: nat, object_count: nat) -> Seq<PasteStep> {
    Seq::new(
        distraction_count + object_count,
        |i: int|
            if i < distraction_count {
                PasteStep::Distraction(i as usize)
            } else {
                PasteStep::Object((i - distraction_count) as usize)
            },
    )
}

/// Where the image `name` is saved in `output_dir`.
pub open spec fn image_file_path(output_dir: Seq<char>, name: Seq<char>) -> Seq<char> {
    output_dir + "/"@ + name + ".png"@
}

/// The paste order for an image with `distraction_count` distractions and
/// `object_count` objects.
pub fn paste_order(distraction_count: usize, object_count: usize) -> (steps: Vec<PasteStep>)
    requires
        distraction_count + object_count <= usize::MAX,
    ensures
        steps@ == paste_plan(distraction_count as nat, object_count as nat),
        steps@.len() == distraction_count + object_count,
        forall|k: int| 0 <= k < distraction_count ==> #[trigger] steps@[k] == PasteStep::Distraction(k as usize),
        forall|k: int|
            0 <= k < object_count ==> #[trigger] steps@[distraction_count + k] == PasteStep::Object(k as usize),
{
    let mut steps: Vec<PasteStep> = Vec::new();
    let mut i: usize = 0;
    while i < distraction_count
        invariant
            i <= distraction_count,
            steps@ == paste_plan(distraction_count as nat, object_count as nat).subrange(0, i as int),
        decreases distraction_count - i,
    {
        steps.push(PasteStep::Distraction(i));
        i = i + 1;
    }
    let mut j: usize = 0;
    while j < object_count
        invariant
            distraction_count + object_count <= usize::MAX,
            j <= object_count,
            steps@ == paste_plan(distraction_count as nat, object_count as nat).subrange(
                0,
                distraction_count + j,
            ),
        decreases object_count - j,
    {
        steps.push(PasteStep::Object(j));
        j = j + 1;
    }
    proof {
        lemma_every_element_pasted_once(distraction_count as nat, object_count as nat);
    }
    steps
}

/// Every distraction and every object of an image is pasted, exactly once: the plan
/// has one step per element, the distractions first, in order, then the objects, in
/// order, so no distraction is pasted over an object.
pub proof fn lemma_every_element_pasted_once(distraction_count: nat, object_count: nat)
    requires
        distraction_count + object_count <= usize::MAX,
    ensures
        paste_plan(distraction_count, object_count).len() == distraction_count + object_count,
        forall|k: int|
            0 <= k < distraction_count ==> #[trigger] paste_plan(distraction_count, object_count)[k]
                == PasteStep::Distraction(k as usize),
        forall|k: int|
            0 <= k < object_count ==> #[trigger] paste_plan(distraction_count, object_count)[distraction_count + k]
                == PasteStep::Object(k as usize),
        forall|i: int, j: int|
            0 <= i < j < distraction_count + object_count ==> paste_plan(distraction_count, object_count)[i]
                != paste_plan(distraction_count, object_count)[j],
        forall|i: int, j: int|
            0 <= i < j < distraction_count + object_count ==> !(paste_plan(distraction_count, object_count)[i] is Object
                && paste_plan(distraction_count, object_count)[j] is Distraction),
{
    let plan = paste_plan(distraction_count, object_count);
    assert forall|k: int| 0 <= k < object_count implies #[trigger] plan[distraction_count + k] == PasteStep::Object(
        k as usize,
    ) by {
        assert(distraction_count + k - distraction_count == k);
    }
    assert forall|i: int, j: int| 0 <= i < j < distraction_count + object_count implies plan[i] != plan[j] by {
        if j < distraction_count {
            assert(plan[i] == PasteStep::Distraction(i as usize));
            assert(plan[j] == PasteStep::Distraction(j as usize));
        } else if i >= distraction_count {
            assert(plan[i] == PasteStep::Object((i - distraction_count) as usize));
            assert(plan[j] == PasteStep::Object((j - distraction_count) as usize));
        }
    }
}

/// The path the image `name` is saved at in `output_dir`.
pub fn image_path(output_dir: &str, name: &str) -> (path: String)
    ensures
        path@ == image_file_path(output_dir@, name@),
{
    String::from_str(output_dir).concat("/").concat(name).concat(".png")
}

} // verus!
