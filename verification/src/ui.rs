//! The live board's page: a single static document that polls the board's
//! JSON API and edits specs and tickets through it.
use vstd::prelude::*;

verus! {

/// The live board's page.
pub const INDEX_HTML: &'static str = r#"<!doctype html>
<html lang="en">
<head>
<meta charset="utf-8">
<title>AI Board</title>
<style>
  body { font-family: system-ui, sans-serif; margin: 0; background: #f4f5f7; color: #172b4d; }
  header { display: flex; gap: 1rem; align-items: center; padding: .75rem 1rem; background: #172b4d; color: #fff; }
  select, button, input, textarea { font: inherit; }
  main { display: grid; grid-template-columns: repeat(5, 1fr); gap: .75rem; padding: 1rem; }
  .column { background: #ebecf0; border-radius: 6px; padding: .5rem; min-height: 60vh; }
  .column h2 { font-size: .9rem; text-transform: uppercase; margin: .25rem .25rem .75rem; }
  .card { background: #fff; border-radius: 4px; padding: .5rem; margin-bottom: .5rem; cursor: pointer; box-shadow: 0 1px 1px rgba(0,0,0,.2); }
  .card.implementing { outline: 3px solid #36b37e; }
  .card.needs_human { outline: 3px solid #de350b; }
  #detail { position: fixed; right: 0; top: 0; bottom: 0; width: 34rem; background: #fff; padding: 1rem; overflow: auto; box-shadow: -2px 0 8px rgba(0,0,0,.2); display: none; }
  #detail textarea { width: 100%; min-height: 8rem; }
  #spec-editor { width: 100%; min-height: 20rem; }
  .error { color: #de350b; }
</style>
</head>
<body>
<header>
  <strong>AI Board</strong>
  <select id="specs"></select>
  <button id="edit-spec">Edit spec</button>
  <span id="status" class="error"></span>
</header>
<main id="board"></main>
<aside id="detail"></aside>
<script>
const STATUSES = ["queued", "implementing", "verifying", "done", "needs_human"];
const editorRef = { current: null };
let selectedSpec = null;

function el(tag, props, ...children) {
  const node = document.createElement(tag);
  Object.assign(node, props || {});
  for (const child of children) {
    node.append(child);
  }
  return node;
}

function showError(message) {
  document.getElementById("status").textContent = message || "";
}

async function loadSpecs() {
  const specs = await (await fetch("/api/specs")).json();
  const select = document.getElementById("specs");
  select.replaceChildren(...specs.map((spec) => el("option", { value: spec.id, textContent: spec.title })));
  if (selectedSpec === null && specs.length > 0) {
    selectedSpec = specs[0].id;
  }
  if (selectedSpec !== null) {
    select.value = selectedSpec;
  }
}

async function loadBoard(id) {
  const response = await fetch(`/api/board?spec_id=${id}`);
  const board = await response.json();
  if (!response.ok) {
    showError(board.error);
    return;
  }
  showError("");
  const columns = STATUSES.map((status) => {
    const cards = board.tickets
      .filter((ticket) => ticket.status === status)
      .map((ticket) => {
        const card = el("div", { className: `card ${ticket.status}` },
          el("strong", { textContent: `#${ticket.id} ${ticket.title}` }),
          el("p", { textContent: ticket.description }));
        card.onclick = () => openTicket(ticket.id);
        return card;
      });
    return el("section", { className: "column" }, el("h2", { textContent: status }), ...cards);
  });
  document.getElementById("board").replaceChildren(...columns);
}

async function openTicket(id) {
  const ticket = await (await fetch(`/api/ticket/${id}`)).json();
  const panel = document.getElementById("detail");
  const titleInput = el("input", { value: ticket.title });
  const editor = el("textarea", { value: ticket.description });
  editorRef.current = editor;
  const dod = el("textarea", { value: JSON.stringify(ticket.definitions_of_done, null, 2) });
  const save = el("button", { textContent: "Save" });
  save.onclick = async () => {
    const description = editorRef.current.value;
    let definitions_of_done;
    try {
      definitions_of_done = JSON.parse(dod.value);
    } catch (err) {
      showError("definitions_of_done must be JSON");
      return;
    }
    const response = await fetch(`/api/ticket/${id}`, {
      method: "PATCH",
      headers: { "Content-Type": "application/json" },
      body: JSON.stringify({
        title: titleInput.value,
        description,
        definitions_of_done,
      }),
    });
    const body = await response.json();
    showError(response.ok ? "" : body.error);
    refresh();
  };
  const close = el("button", { textContent: "Close" });
  close.onclick = () => { panel.style.display = "none"; };
  const tasks = (ticket.tasks || []).map((task) =>
    el("li", { textContent: `${task.title} [${task.work_type}] - ${task.objective}` }));
  panel.replaceChildren(
    el("h2", { textContent: `Ticket #${ticket.id} (${ticket.status})` }),
    el("label", { textContent: "Title" }), titleInput,
    el("label", { textContent: "Description" }), editor,
    el("label", { textContent: "Definitions of done" }), dod,
    el("p", { textContent: ticket.human_context ? `Human context: ${ticket.human_context}` : "" }),
    el("h3", { textContent: "Tasks" }), el("ul", {}, ...tasks),
    save, close);
  panel.style.display = "block";
}

async function openSpec(specId) {
  const spec = await (await fetch(`/api/spec/${specId}`)).json();
  const panel = document.getElementById("detail");
  const titleInput = el("input", { value: spec.title });
  const content = el("textarea", { id: "spec-editor", value: spec.content });
  const save = el("button", { textContent: "Save" });
  save.onclick = async () => {
    const response = await fetch(`/api/spec/${specId}`, {
      method: "PATCH",
      headers: { "Content-Type": "application/json" },
      body: JSON.stringify({ title: titleInput.value, content: content.value }),
    });
    const body = await response.json();
    showError(response.ok ? "" : body.error);
    refresh();
  };
  const close = el("button", { textContent: "Close" });
  close.onclick = () => { panel.style.display = "none"; };
  panel.replaceChildren(el("h2", { textContent: `Spec #${spec.id}` }), titleInput, content, save, close);
  panel.style.display = "block";
}

async function refresh() {
  try {
    await loadSpecs();
    if (selectedSpec !== null) {
      await loadBoard(selectedSpec);
    }
  } catch (err) {
    showError(String(err));
  }
}

document.getElementById("specs").onchange = (event) => {
  selectedSpec = Number(event.target.value);
  refresh();
};
document.getElementById("edit-spec").onclick = () => {
  if (selectedSpec !== null) {
    openSpec(selectedSpec);
  }
};
refresh();
setInterval(refresh, 1500);
</script>
</body>
</html>
"#;

} // verus!
